//! The render entry point: one synchronous, single-threaded pass per
//! document.  Image rewriting runs on the raw text, the tokenizer
//! turns the result into events, the transformation pass runs over
//! them, and the serializer folds the outcome into one HTML string.
//! On any failure no output string is produced at all.

use vstd::prelude::*;

use crate::errors::RenderError;
use crate::highlight::Highlighter;
use crate::rewrite::rewrite_images;
use crate::rewrite::spec_rewrite;
use crate::stream::events_of;
use crate::stream::html_of;
use crate::stream::render_events;
use crate::stream::tokenize;
use crate::transform::blocks_unknown;
use crate::transform::lemma_no_fallible_run;
use crate::transform::lemma_wf_transform;
use crate::transform::init_state;
use crate::transform::no_fallible;
use crate::transform::run_error;
use crate::transform::spec_transform;
use crate::transform::spec_transform_err;
use crate::transform::transform_events;

verus! {

/// The whole pipeline as a function of the document alone: rewrite,
/// tokenize, transform, serialize.  `None` only for a structurally
/// malformed event stream, which the tokenizer never produces.
pub open spec fn spec_render(s: Seq<char>) -> Option<Seq<char>> {
    let rewritten = spec_rewrite(s);
    match spec_transform(events_of(rewritten)) {
        None => None,
        Some(out) => Some(html_of(rewritten, out)),
    }
}

/// The first failure a render of the document meets, if any: a
/// function of the document alone, like the successful output.
pub open spec fn spec_render_err(s: Seq<char>) -> Option<RenderError> {
    spec_transform_err(events_of(spec_rewrite(s)))
}

/// A renderer holds the process-wide highlighting configuration,
/// loaded once; render calls share it read-only and may run
/// concurrently, each call's state being local to the call.
pub struct Renderer {
    hl: Highlighter,
}

impl Renderer {
    /// Load the shared configuration.  Do this once per process.
    pub fn new() -> Renderer {
        Renderer { hl: Highlighter::new() }
    }

    /// Render one markdown document to HTML.
    ///
    /// The outcome is a function of the document alone: the call
    /// succeeds exactly when no math span is rejected and no code line
    /// fails to highlight (`spec_render_err` is the first failure, if
    /// any), on success the output is the one value `spec_render`
    /// gives, and on failure the error is the one `spec_render_err`
    /// names — so repeated calls agree, output and error kind alike.
    /// A document whose code blocks all carry unrecognized language
    /// tags never fails with a highlight error: they fall back to
    /// plain text.  No partially transformed output exists on any
    /// error path.
    pub fn render(&self, markdown: &str) -> (r: Result<String, RenderError>)
        ensures
            spec_render(markdown@) is Some,
            r is Ok <==> spec_render_err(markdown@) is None,
            r matches Ok(h) ==> spec_render(markdown@) == Some(h@),
            r matches Err(e) ==> spec_render_err(markdown@) == Some(e) && (e is MathRender || e
                is Highlight),
            no_fallible(events_of(spec_rewrite(markdown@))) ==> r is Ok,
            r matches Err(e) && e is Highlight ==> !blocks_unknown(
                events_of(spec_rewrite(markdown@)),
            ),
    {
        let rewritten = rewrite_images(markdown);
        let evs = tokenize(rewritten.as_str());
        proof {
            lemma_wf_transform(evs.deep_view());
            if no_fallible(evs.deep_view()) {
                lemma_no_fallible_run(init_state(), evs.deep_view());
            }
        }
        let out = match transform_events(&self.hl, &evs) {
            Ok(out) => out,
            Err(e) => {
                proof {
                    assert(!(e is MalformedInput));
                }
                return Err(e);
            },
        };
        Ok(render_events(rewritten.as_str(), &out))
    }
}

/// Render one document with a freshly loaded configuration.  Callers
/// rendering many documents should hold a [`Renderer`] instead.
pub fn render(markdown: &str) -> (r: Result<String, RenderError>)
    ensures
        spec_render(markdown@) is Some,
        r is Ok <==> spec_render_err(markdown@) is None,
        r matches Ok(h) ==> spec_render(markdown@) == Some(h@),
        r matches Err(e) ==> spec_render_err(markdown@) == Some(e) && (e is MathRender || e
            is Highlight),
        no_fallible(events_of(spec_rewrite(markdown@))) ==> r is Ok,
        r matches Err(e) && e is Highlight ==> !blocks_unknown(events_of(spec_rewrite(markdown@))),
{
    let renderer = Renderer::new();
    renderer.render(markdown)
}

/// Determinism: for a fixed document (and the fixed ruleset, theme and
/// math configuration), any two renders meeting `render`'s contract
/// agree in full — byte-identical output on success, and the same
/// error on failure; one call cannot succeed where another fails.
pub proof fn lemma_render_deterministic(
    s: Seq<char>,
    r1: Result<Seq<char>, RenderError>,
    r2: Result<Seq<char>, RenderError>,
)
    requires
        r1 is Ok <==> spec_render_err(s) is None,
        r1 matches Ok(h) ==> spec_render(s) == Some(h),
        r1 matches Err(e) ==> spec_render_err(s) == Some(e),
        r2 is Ok <==> spec_render_err(s) is None,
        r2 matches Ok(h) ==> spec_render(s) == Some(h),
        r2 matches Err(e) ==> spec_render_err(s) == Some(e),
    ensures
        r1 == r2,
{
}

} // verus!
