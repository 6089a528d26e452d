//! The transformation pass over the merged event sequence.
//!
//! Math transformation, code-block accumulation and image interception
//! run as a single left-to-right pass, one event consumed at a time and
//! one explicit state value carried forward.  The state is a plain
//! struct, so each piece is constructible and testable on its own.
//!
//! End-of-stream policy: a code block still open when the stream ends
//! is flushed as if it had been closed (the remainder counts as code
//! through end of input); an image still open is a malformed-input
//! error, so that no unrelated trailing content is ever swallowed
//! silently.

use vstd::prelude::*;

use crate::errors::RenderError;
use crate::event::Ev;
use crate::event::EvModel;
use crate::highlight::Highlighter;
use crate::highlight::code_block_html;
use crate::highlight::lang_known;
use crate::highlight::resolve_lang;
use crate::highlight::spec_block_ok;
use crate::highlight::spec_code_html;
use crate::math::katex_display_accepts;
use crate::math::katex_display_of;
use crate::math::katex_inline_accepts;
use crate::math::katex_inline_of;
use crate::math::render_math_display;
use crate::math::render_math_inline;
use crate::rewrite::img_fragment;
use crate::rewrite::spec_img_fragment;
use crate::stream::stream_wf;
use crate::text::chars_to_string;
use crate::stream::stream_wf_from;
use crate::text::copy_range;
use crate::text::first_token;
use crate::text::lowercase;
use crate::text::spec_first_token;
use crate::text::str_to_chars;
use crate::text::unicode_lower;

verus! {

/// Model of the code-block accumulator: nothing buffered, or the
/// language token and the text buffered since the block opened.
pub enum CodeModel {
    Outside,
    Inside { lang: Option<Seq<char>>, buf: Seq<char> },
}

/// Model of the whole pass state: the accumulator and the image-skip
/// flag.
pub struct PassModel {
    pub code: CodeModel,
    pub skip: bool,
}

pub open spec fn init_state() -> PassModel {
    PassModel { code: CodeModel::Outside, skip: false }
}

/// Index of the last `.` strictly before position `i`, if any.
pub open spec fn last_dot(u: Seq<char>, i: int) -> Option<int>
    decreases i,
{
    if i <= 0 || i > u.len() {
        None
    } else if u[i - 1] == '.' {
        Some(i - 1)
    } else {
        last_dot(u, i - 1)
    }
}

/// The substring after the last `.` of a URL, or the whole URL when it
/// has none: the segment whose lower-cased form names the format.
pub open spec fn spec_ext_segment(u: Seq<char>) -> Seq<char> {
    match last_dot(u, u.len() as int) {
        Some(d) => u.subrange(d + 1, u.len() as int),
        None => u,
    }
}

/// An image target counts as vector art when its format segment,
/// lower-cased, reads `svg`.
pub open spec fn spec_is_svg_url(u: Seq<char>) -> bool {
    unicode_lower(spec_ext_segment(u)) == "svg"@
}

/// One step of the pass: the successor state and the events emitted
/// for `e`, or nothing for a structurally impossible event (a nested
/// code block, a bare code-block end, a non-text event inside a code
/// block).
pub open spec fn spec_step(st: PassModel, e: EvModel) -> Option<(PassModel, Seq<EvModel>)> {
    if st.skip {
        if e is ImageEnd {
            Some((PassModel { code: st.code, skip: false }, Seq::empty()))
        } else {
            Some((st, Seq::empty()))
        }
    } else {
        match st.code {
            CodeModel::Inside { lang, buf } => match e {
                EvModel::Text(t) => Some(
                    (PassModel { code: CodeModel::Inside { lang, buf: buf + t }, skip: false },
                    Seq::empty()),
                ),
                EvModel::CodeEnd => Some(
                    (PassModel { code: CodeModel::Outside, skip: false },
                    seq![EvModel::Html(spec_code_html(lang, buf))]),
                ),
                _ => None,
            },
            CodeModel::Outside => match e {
                EvModel::FencedCode(info) => Some(
                    (PassModel {
                        code: CodeModel::Inside {
                            lang: Some(spec_first_token(info)),
                            buf: Seq::empty(),
                        },
                        skip: false,
                    }, Seq::empty()),
                ),
                EvModel::IndentedCode => Some(
                    (PassModel { code: CodeModel::Inside { lang: None, buf: Seq::empty() },
                        skip: false,
                    }, Seq::empty()),
                ),
                EvModel::CodeEnd => None,
                EvModel::Text(t) => Some((st, seq![EvModel::Text(t)])),
                EvModel::MathInline(x) => Some(
                    (st, seq![EvModel::InlineHtml(katex_inline_of(x))]),
                ),
                EvModel::MathDisplay(x) => Some((st, seq![EvModel::Html(katex_display_of(x))])),
                EvModel::ImageStart(u) => Some(
                    (PassModel { code: CodeModel::Outside, skip: true },
                    seq![EvModel::Html(spec_img_fragment(u, spec_is_svg_url(u)))]),
                ),
                other => Some((st, seq![other])),
            },
        }
    }
}

/// What the pass emits when the stream ends: an open code block is
/// flushed, an open image is a structural error.
pub open spec fn spec_finish(st: PassModel) -> Option<Seq<EvModel>> {
    if st.skip {
        None
    } else {
        match st.code {
            CodeModel::Outside => Some(Seq::empty()),
            CodeModel::Inside { lang, buf } => Some(seq![EvModel::Html(spec_code_html(lang, buf))]),
        }
    }
}

/// The pass over a whole event sequence from state `st`.
pub open spec fn run_events(st: PassModel, evs: Seq<EvModel>) -> Option<Seq<EvModel>>
    decreases evs.len(),
{
    if evs.len() == 0 {
        spec_finish(st)
    } else {
        match spec_step(st, evs[0]) {
            None => None,
            Some(p) => match run_events(p.0, evs.drop_first()) {
                None => None,
                Some(rest) => Some(p.1 + rest),
            },
        }
    }
}

/// The whole pass: the transformed event sequence, or nothing for a
/// structurally malformed stream.
pub open spec fn spec_transform(evs: Seq<EvModel>) -> Option<Seq<EvModel>> {
    run_events(init_state(), evs)
}

/// Whether the outside call one step makes, if any, succeeds: closing
/// a code block must highlight every buffered line, and a math span
/// must be accepted by the renderer.  Steps that call nothing always
/// succeed.
pub open spec fn spec_step_ok(st: PassModel, e: EvModel) -> bool {
    if st.skip {
        true
    } else {
        match st.code {
            CodeModel::Inside { lang, buf } => match e {
                EvModel::CodeEnd => spec_block_ok(lang, buf),
                _ => true,
            },
            CodeModel::Outside => match e {
                EvModel::MathInline(x) => katex_inline_accepts(x),
                EvModel::MathDisplay(x) => katex_display_accepts(x),
                _ => true,
            },
        }
    }
}

/// The error a failed outside call reports: closing a code block
/// fails as a highlight error, a math span as a math-render error.
pub open spec fn spec_step_err(st: PassModel, e: EvModel) -> RenderError {
    if e is CodeEnd {
        RenderError::Highlight
    } else {
        RenderError::MathRender
    }
}

/// The first failure the pass meets on `evs` from state `st`, if any:
/// the structural errors of `spec_step` and `spec_finish`, and the
/// outside calls' refusals, in stream order.
pub open spec fn run_error(st: PassModel, evs: Seq<EvModel>) -> Option<RenderError>
    decreases evs.len(),
{
    if evs.len() == 0 {
        if st.skip {
            Some(RenderError::MalformedInput)
        } else {
            match st.code {
                CodeModel::Outside => None,
                CodeModel::Inside { lang, buf } => if spec_block_ok(lang, buf) {
                    None
                } else {
                    Some(RenderError::Highlight)
                },
            }
        }
    } else {
        match spec_step(st, evs[0]) {
            None => Some(RenderError::MalformedInput),
            Some(p) => if !spec_step_ok(st, evs[0]) {
                Some(spec_step_err(st, evs[0]))
            } else {
                run_error(p.0, evs.drop_first())
            },
        }
    }
}

/// The whole pass's outcome on the error side.
pub open spec fn spec_transform_err(evs: Seq<EvModel>) -> Option<RenderError> {
    run_error(init_state(), evs)
}

/// Every code block the stream opens carries a language token the
/// ruleset table does not know (an indented block's plain-text name
/// included), so each one falls back to plain text.
pub open spec fn blocks_unknown(evs: Seq<EvModel>) -> bool {
    forall|i: int|
        0 <= i < evs.len() ==> {
            &&& ((#[trigger] evs[i]) matches EvModel::FencedCode(info) ==> !lang_known(
                spec_first_token(info),
            ))
            &&& (evs[i] is IndentedCode ==> !lang_known("plaintext"@))
        }
}

/// No event whose handling can fail at run time: no math span (the
/// external renderer may reject it) and no code-block event (the
/// highlighter may fail).
pub open spec fn no_fallible(evs: Seq<EvModel>) -> bool {
    forall|i: int|
        0 <= i < evs.len() ==> {
            &&& !((#[trigger] evs[i]) is MathInline)
            &&& !(evs[i] is MathDisplay)
            &&& !(evs[i] is FencedCode)
            &&& !(evs[i] is IndentedCode)
            &&& !(evs[i] is CodeEnd)
        }
}

/// A structurally well-formed stream is transformed in full: the pass
/// returns an event sequence for it, and its only possible failures
/// are the outside calls' refusals, never a structural error.
pub proof fn lemma_wf_run(st: PassModel, evs: Seq<EvModel>)
    requires
        stream_wf_from(evs, st.code is Inside, st.skip),
    ensures
        run_events(st, evs) is Some,
        run_error(st, evs) != Some(RenderError::MalformedInput),
    decreases evs.len(),
{
    if evs.len() > 0 {
        let e = evs[0];
        let step = spec_step(st, e);
        assert(step is Some);
        let p = step->0;
        lemma_wf_run(p.0, evs.drop_first());
    }
}

pub proof fn lemma_wf_transform(evs: Seq<EvModel>)
    requires
        stream_wf(evs),
    ensures
        spec_transform(evs) is Some,
        spec_transform_err(evs) != Some(RenderError::MalformedInput),
{
    lemma_wf_run(init_state(), evs);
}

/// A well-formed stream without math spans or code-block events meets
/// no failure at all: every step's outside call, if any, is one it
/// never makes.
pub proof fn lemma_no_fallible_run(st: PassModel, evs: Seq<EvModel>)
    requires
        no_fallible(evs),
        st.code is Outside,
        stream_wf_from(evs, false, st.skip),
    ensures
        run_error(st, evs) is None,
    decreases evs.len(),
{
    if evs.len() > 0 {
        let e = evs[0];
        assert(!(e is MathInline) && !(e is MathDisplay) && !(e is FencedCode) && !(e
            is IndentedCode) && !(e is CodeEnd));
        let p = spec_step(st, e)->0;
        assert(forall|i: int|
            0 <= i < evs.drop_first().len() ==> #[trigger] evs.drop_first()[i] == evs[i + 1]);
        lemma_no_fallible_run(p.0, evs.drop_first());
    }
}

/// The executable code-block accumulator.
#[derive(Debug)]
pub enum CodeAcc {
    Outside,
    Inside { lang: Option<String>, buf: Vec<char> },
}

impl View for CodeAcc {
    type V = CodeModel;

    open spec fn view(&self) -> CodeModel {
        match self {
            CodeAcc::Outside => CodeModel::Outside,
            CodeAcc::Inside { lang, buf } => CodeModel::Inside {
                lang: lang.deep_view(),
                buf: buf@,
            },
        }
    }
}

/// The executable pass state.
#[derive(Debug)]
pub struct PassAcc {
    pub code: CodeAcc,
    pub skip: bool,
}

impl View for PassAcc {
    type V = PassModel;

    open spec fn view(&self) -> PassModel {
        PassModel { code: self.code@, skip: self.skip }
    }
}

impl PassAcc {
    /// The initial pass state: outside any code block, not skipping.
    pub fn new() -> (r: PassAcc)
        ensures
            r@ == init_state(),
    {
        PassAcc { code: CodeAcc::Outside, skip: false }
    }
}

/// The format segment of an image URL.
pub fn ext_segment(u: &str) -> (r: String)
    ensures
        r@ == spec_ext_segment(u@),
{
    let v = str_to_chars(u);
    let n = v.len();
    let mut i: usize = n;
    while i > 0
        invariant
            i <= n == v@.len(),
            v@ == u@,
            last_dot(v@, n as int) == last_dot(v@, i as int),
        decreases i,
    {
        if v[i - 1] == '.' {
            let seg = copy_range(&v, i, n);
            proof {
                assert(last_dot(v@, i as int) == Some(i - 1));
                assert(spec_ext_segment(u@) == v@.subrange(i as int, n as int));
            }
            return chars_to_string(&seg);
        }
        i = i - 1;
    }
    String::from_str(u)
}

/// Whether an image URL names vector art.
pub fn is_svg_url(u: &str) -> (r: bool)
    ensures
        r == spec_is_svg_url(u@),
{
    let seg = ext_segment(u);
    let low = lowercase(seg.as_str());
    let svg = String::from_str("svg");
    low == svg
}

/// One step of the executable pass.  The state is handed in and out
/// explicitly, so each transition is constructible and testable on its
/// own, without running the whole pipeline.  The outcome is pinned on
/// both sides: the step succeeds exactly when it is structurally
/// possible and its outside call, if any, succeeds, and a failed step
/// reports the one error its cause determines.
pub fn step_event(cfg: &Highlighter, st: PassAcc, e: Ev) -> (r: Result<
    (PassAcc, Vec<Ev>),
    RenderError,
>)
    ensures
        r is Ok <==> (spec_step(st@, e@) is Some && spec_step_ok(st@, e@)),
        r matches Ok(p) ==> spec_step(st@, e@) == Some((p.0@, p.1.deep_view())),
        r matches Err(er) ==> er == (if spec_step(st@, e@) is None {
            RenderError::MalformedInput
        } else {
            spec_step_err(st@, e@)
        }),
        r matches Err(er) && er is Highlight ==> (st@.code matches CodeModel::Inside { lang, .. }
            && lang_known(resolve_lang(lang))),
{
    if st.skip {
        let cleared = match e {
            Ev::ImageEnd => true,
            _ => false,
        };
        let out: Vec<Ev> = Vec::new();
        proof {
            assert(out.deep_view() =~= Seq::<EvModel>::empty());
        }
        return Ok((PassAcc { code: st.code, skip: !cleared }, out));
    }
    match st.code {
        CodeAcc::Inside { lang, mut buf } => match e {
            Ev::Text(t) => {
                let mut tc = str_to_chars(t.as_str());
                buf.append(&mut tc);
                let out: Vec<Ev> = Vec::new();
                proof {
                    assert(out.deep_view() =~= Seq::<EvModel>::empty());
                }
                Ok((PassAcc { code: CodeAcc::Inside { lang, buf }, skip: false }, out))
            },
            Ev::CodeEnd => match code_block_html(cfg, &lang, &buf) {
                Ok(h) => {
                    let mut out: Vec<Ev> = Vec::new();
                    out.push(Ev::Html(h));
                    proof {
                        assert(out.deep_view() =~= seq![
                            EvModel::Html(spec_code_html(lang.deep_view(), buf@)),
                        ]);
                    }
                    Ok((PassAcc { code: CodeAcc::Outside, skip: false }, out))
                },
                Err(er) => Err(er),
            },
            _ => Err(RenderError::MalformedInput),
        },
        CodeAcc::Outside => match e {
            Ev::FencedCode(info) => {
                let lang = first_token(info.as_str());
                let out: Vec<Ev> = Vec::new();
                proof {
                    assert(out.deep_view() =~= Seq::<EvModel>::empty());
                }
                Ok(
                    (PassAcc {
                        code: CodeAcc::Inside { lang: Some(lang), buf: Vec::new() },
                        skip: false,
                    }, out),
                )
            },
            Ev::IndentedCode => {
                let out: Vec<Ev> = Vec::new();
                proof {
                    assert(out.deep_view() =~= Seq::<EvModel>::empty());
                }
                Ok(
                    (PassAcc { code: CodeAcc::Inside { lang: None, buf: Vec::new() }, skip: false },
                    out),
                )
            },
            Ev::CodeEnd => Err(RenderError::MalformedInput),
            Ev::Text(t) => {
                let mut out: Vec<Ev> = Vec::new();
                let ghost tv = t@;
                out.push(Ev::Text(t));
                proof {
                    assert(out.deep_view() =~= seq![EvModel::Text(tv)]);
                }
                Ok((PassAcc { code: CodeAcc::Outside, skip: false }, out))
            },
            Ev::MathInline(x) => match render_math_inline(x.as_str()) {
                Ok(h) => {
                    let mut out: Vec<Ev> = Vec::new();
                    out.push(Ev::InlineHtml(h));
                    proof {
                        assert(out.deep_view() =~= seq![EvModel::InlineHtml(katex_inline_of(x@))]);
                    }
                    Ok((PassAcc { code: CodeAcc::Outside, skip: false }, out))
                },
                Err(_) => Err(RenderError::MathRender),
            },
            Ev::MathDisplay(x) => match render_math_display(x.as_str()) {
                Ok(h) => {
                    let mut out: Vec<Ev> = Vec::new();
                    out.push(Ev::Html(h));
                    proof {
                        assert(out.deep_view() =~= seq![EvModel::Html(katex_display_of(x@))]);
                    }
                    Ok((PassAcc { code: CodeAcc::Outside, skip: false }, out))
                },
                Err(_) => Err(RenderError::MathRender),
            },
            Ev::ImageStart(u) => {
                let svg = is_svg_url(u.as_str());
                let frag = img_fragment(u.as_str(), svg);
                let mut out: Vec<Ev> = Vec::new();
                let ghost uv = u@;
                out.push(Ev::Html(frag));
                proof {
                    assert(out.deep_view() =~= seq![
                        EvModel::Html(spec_img_fragment(uv, spec_is_svg_url(uv))),
                    ]);
                }
                Ok((PassAcc { code: CodeAcc::Outside, skip: true }, out))
            },
            other => {
                let mut out: Vec<Ev> = Vec::new();
                let ghost ov = other@;
                out.push(other);
                proof {
                    assert(out.deep_view() =~= seq![ov]);
                }
                Ok((PassAcc { code: CodeAcc::Outside, skip: false }, out))
            },
        },
    }
}

/// `prefix` prepended to a pass result.
pub open spec fn extend_out(prefix: Seq<EvModel>, r: Option<Seq<EvModel>>) -> Option<
    Seq<EvModel>,
> {
    match r {
        None => None,
        Some(t) => Some(prefix + t),
    }
}

/// Run the whole pass over an event sequence.  The outcome is pinned
/// on both sides: the pass succeeds exactly when it meets no failure,
/// and otherwise returns the first failure's error.
pub fn transform_events(cfg: &Highlighter, evs: &Vec<Ev>) -> (r: Result<Vec<Ev>, RenderError>)
    ensures
        r is Ok <==> spec_transform_err(evs.deep_view()) is None,
        r matches Ok(out) ==> spec_transform(evs.deep_view()) == Some(out.deep_view()),
        r matches Err(er) ==> spec_transform_err(evs.deep_view()) == Some(er),
        r matches Err(er) && er is Highlight ==> !blocks_unknown(evs.deep_view()),
{
    let ghost evs0 = evs.deep_view();
    let n = evs.len();
    let mut st = PassAcc::new();
    let mut out: Vec<Ev> = Vec::new();
    let mut i: usize = 0;
    proof {
        assert(evs0.skip(0) =~= evs0);
        assert(out.deep_view() =~= Seq::<EvModel>::empty());
        assert(extend_out(out.deep_view(), run_events(st@, evs0.skip(0))) == spec_transform(evs0));
    }
    while i < n
        invariant
            i <= n == evs@.len(),
            evs0 == evs.deep_view(),
            spec_transform(evs0) == extend_out(out.deep_view(), run_events(st@, evs0.skip(i as int))),
            spec_transform_err(evs0) == run_error(st@, evs0.skip(i as int)),
            blocks_unknown(evs0) ==> (st@.code matches CodeModel::Inside { lang, .. }
                ==> !lang_known(resolve_lang(lang))),
        decreases n - i,
    {
        let ghost st_v = st@;
        let ghost out0 = out.deep_view();
        let e = evs[i].duplicate();
        proof {
            assert(evs0.skip(i as int).len() > 0);
            assert(evs0.skip(i as int)[0] == evs0[i as int]);
            assert(evs0.skip(i as int).drop_first() =~= evs0.skip(i + 1));
        }
        match step_event(cfg, st, e) {
            Ok(p) => {
                let (st2, mut delta) = p;
                let ghost delta0 = delta.deep_view();
                out.append(&mut delta);
                st = st2;
                proof {
                    assert(out.deep_view() =~= out0 + delta0);
                    match run_events(st@, evs0.skip(i + 1)) {
                        Some(rest) => {
                            assert(run_events(st_v, evs0.skip(i as int)) == Some(delta0 + rest));
                            assert(out0 + (delta0 + rest) =~= (out0 + delta0) + rest);
                        },
                        None => {},
                    }
                }
            },
            Err(er) => {
                proof {
                    assert(run_error(st_v, evs0.skip(i as int)) == Some(er));
                    if er is Highlight && blocks_unknown(evs0) {
                        assert(false);
                    }
                }
                return Err(er);
            },
        }
        i = i + 1;
    }
    proof {
        assert(evs0.skip(n as int) =~= Seq::<EvModel>::empty());
    }
    let ghost out0 = out.deep_view();
    if st.skip {
        proof {
            assert(spec_finish(st@) is None);
            assert(run_error(st@, evs0.skip(n as int)) == Some(RenderError::MalformedInput));
        }
        return Err(RenderError::MalformedInput);
    }
    match st.code {
        CodeAcc::Outside => {
            proof {
                assert(out0 + Seq::<EvModel>::empty() =~= out0);
            }
            Ok(out)
        },
        CodeAcc::Inside { lang, buf } => match code_block_html(cfg, &lang, &buf) {
            Ok(h) => {
                out.push(Ev::Html(h));
                proof {
                    assert(out.deep_view() =~= out0 + seq![
                        EvModel::Html(spec_code_html(lang.deep_view(), buf@)),
                    ]);
                }
                Ok(out)
            },
            Err(er) => {
                proof {
                    assert(run_error(st@, evs0.skip(n as int)) == Some(RenderError::Highlight));
                    if blocks_unknown(evs0) {
                        assert(!lang_known(resolve_lang(lang.deep_view())));
                        assert(false);
                    }
                }
                Err(er)
            },
        },
    }
}

} // verus!
