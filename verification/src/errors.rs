use vstd::prelude::*;

verus! {

/// Failure of a single render call.
///
/// A render either returns the complete HTML string or exactly one of
/// these errors; no partial output is ever produced.
#[derive(Debug, Clone, PartialEq, Eq, Structural)]
pub enum RenderError {
    /// The external math renderer rejected a math expression.
    MathRender,
    /// The syntax-highlighting backend failed on a line of code.
    Highlight,
    /// The event stream ended while an image was still open, so content
    /// after the image start would have been dropped silently.
    MalformedInput,
}

impl RenderError {
    /// A short human-readable description of the error.
    pub fn message(&self) -> (r: &'static str)
        ensures
            self is MathRender ==> r@ == "math rendering failed"@,
            self is Highlight ==> r@ == "syntax highlighting failed"@,
            self is MalformedInput ==> r@ == "malformed input"@,
    {
        match self {
            RenderError::MathRender => "math rendering failed",
            RenderError::Highlight => "syntax highlighting failed",
            RenderError::MalformedInput => "malformed input",
        }
    }
}

} // verus!
