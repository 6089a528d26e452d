//! Math rendering through the external math-to-HTML capability.
//!
//! Each `$...$` / `$$...$$` span is rendered synchronously; the
//! renderer is a pure function of the expression, so its two modes are
//! abstracted by one name each.  A rejected expression surfaces as an
//! error, never as raw or corrupt markup.

use vstd::prelude::*;

verus! {

/// The inline-mode markup the math renderer produces for `e`.
pub uninterp spec fn katex_inline_of(e: Seq<char>) -> Seq<char>;

/// Whether the math renderer accepts `e` in inline mode: rejection of
/// a malformed expression is determined by the expression and the
/// fixed mode alone.
pub uninterp spec fn katex_inline_accepts(e: Seq<char>) -> bool;

/// The display-mode (block, centered) markup the math renderer
/// produces for `e`.
pub uninterp spec fn katex_display_of(e: Seq<char>) -> Seq<char>;

/// Whether the math renderer accepts `e` in display mode.
pub uninterp spec fn katex_display_accepts(e: Seq<char>) -> bool;

/// Relies on `katex::render`: deterministic in the expression alone,
/// succeeding exactly when KaTeX accepts the expression; a malformed
/// expression is rejected with an error.
#[verifier::external_body]
pub(crate) fn render_math_inline(expr: &str) -> (r: Result<String, ()>)
    ensures
        r is Ok <==> katex_inline_accepts(expr@),
        r matches Ok(h) ==> h@ == katex_inline_of(expr@),
{
    match katex::render(expr) {
        Ok(h) => Ok(h),
        Err(_) => Err(()),
    }
}

/// Relies on `katex::Opts::builder().display_mode(true)` and
/// `katex::render_with_opts`: deterministic in the expression alone,
/// succeeding exactly when KaTeX accepts the expression; a malformed
/// expression is rejected with an error.
#[verifier::external_body]
pub(crate) fn render_math_display(expr: &str) -> (r: Result<String, ()>)
    ensures
        r is Ok <==> katex_display_accepts(expr@),
        r matches Ok(h) ==> h@ == katex_display_of(expr@),
{
    let opts = match katex::Opts::builder().display_mode(true).build() {
        Ok(o) => o,
        Err(_) => {
            return Err(());
        },
    };
    match katex::render_with_opts(expr, &opts) {
        Ok(h) => Ok(h),
        Err(_) => Err(()),
    }
}

} // verus!
