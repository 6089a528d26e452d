use vstd::prelude::*;

verus! {

/// One tokenizer event, reduced to what the transformation pass reads.
///
/// The tokenizer emits many structural event kinds the pass does not
/// act on; those keep only their position in the merged event stream
/// (`Passthrough`), which lets the serializer replay them unchanged.
#[derive(Debug, Clone)]
pub enum Ev {
    /// A merged text run.
    Text(String),
    /// Start of a fenced code block, carrying the fence's info string.
    FencedCode(String),
    /// Start of an indented code block.
    IndentedCode,
    /// End of a code block.
    CodeEnd,
    /// Start of an inline image, carrying the destination URL.
    ImageStart(String),
    /// End of an inline image.
    ImageEnd,
    /// An inline math span, carrying the expression.
    MathInline(String),
    /// A display math span, carrying the expression.
    MathDisplay(String),
    /// A raw block-level HTML fragment.
    Html(String),
    /// A raw inline HTML fragment.
    InlineHtml(String),
    /// Any other event, identified by its stream position.
    Passthrough(usize),
}

/// Mathematical model of an [`Ev`]: the same shape over `Seq<char>`.
pub enum EvModel {
    Text(Seq<char>),
    FencedCode(Seq<char>),
    IndentedCode,
    CodeEnd,
    ImageStart(Seq<char>),
    ImageEnd,
    MathInline(Seq<char>),
    MathDisplay(Seq<char>),
    Html(Seq<char>),
    InlineHtml(Seq<char>),
    Passthrough(int),
}

impl View for Ev {
    type V = EvModel;

    open spec fn view(&self) -> EvModel {
        match self {
            Ev::Text(s) => EvModel::Text(s@),
            Ev::FencedCode(s) => EvModel::FencedCode(s@),
            Ev::IndentedCode => EvModel::IndentedCode,
            Ev::CodeEnd => EvModel::CodeEnd,
            Ev::ImageStart(s) => EvModel::ImageStart(s@),
            Ev::ImageEnd => EvModel::ImageEnd,
            Ev::MathInline(s) => EvModel::MathInline(s@),
            Ev::MathDisplay(s) => EvModel::MathDisplay(s@),
            Ev::Html(s) => EvModel::Html(s@),
            Ev::InlineHtml(s) => EvModel::InlineHtml(s@),
            Ev::Passthrough(i) => EvModel::Passthrough(*i as int),
        }
    }
}

impl DeepView for Ev {
    type V = EvModel;

    open spec fn deep_view(&self) -> EvModel {
        self.view()
    }
}

impl Ev {
    /// An equal event, field for field.
    pub fn duplicate(&self) -> (r: Ev)
        ensures
            r@ == self@,
    {
        match self {
            Ev::Text(s) => Ev::Text(s.clone()),
            Ev::FencedCode(s) => Ev::FencedCode(s.clone()),
            Ev::IndentedCode => Ev::IndentedCode,
            Ev::CodeEnd => Ev::CodeEnd,
            Ev::ImageStart(s) => Ev::ImageStart(s.clone()),
            Ev::ImageEnd => Ev::ImageEnd,
            Ev::MathInline(s) => Ev::MathInline(s.clone()),
            Ev::MathDisplay(s) => Ev::MathDisplay(s.clone()),
            Ev::Html(s) => Ev::Html(s.clone()),
            Ev::InlineHtml(s) => Ev::InlineHtml(s.clone()),
            Ev::Passthrough(i) => Ev::Passthrough(*i),
        }
    }
}

} // verus!
