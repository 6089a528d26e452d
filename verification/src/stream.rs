//! The two trusted ends of the event stream.
//!
//! Tokenization turns the rewritten markdown into an ordered event
//! sequence (with adjacent text runs merged); serialization folds the
//! transformed sequence back into one HTML string.  Both lean on the
//! markdown tokenizer crate and are trusted; everything between them is
//! verified.

use vstd::prelude::*;

use crate::event::Ev;
use crate::event::EvModel;
use pulldown_cmark::CodeBlockKind::Fenced;
use pulldown_cmark::CodeBlockKind::Indented;
use pulldown_cmark::Event;
use pulldown_cmark::Options;
use pulldown_cmark::Parser;
use pulldown_cmark::Tag::CodeBlock;
use pulldown_cmark::Tag::Image;
use pulldown_cmark::TagEnd::CodeBlock as EndCodeBlock;
use pulldown_cmark::TagEnd::Image as EndImage;
use pulldown_cmark::TextMergeStream;
use pulldown_cmark::html::push_html;

verus! {

/// The merged event sequence the tokenizer yields for a document, with
/// tables, task lists, strikethrough and math syntax enabled.  Events
/// the transformation pass does not read are abstracted to their
/// stream position.
pub uninterp spec fn events_of(s: Seq<char>) -> Seq<EvModel>;

/// Structural facts the tokenizer guarantees of its stream, scanned
/// left to right: start and end events are balanced, a code block's
/// content arrives only as text runs, images and code blocks do not
/// open inside a code block, and nothing stays open at the end.
pub open spec fn stream_wf_from(evs: Seq<EvModel>, in_code: bool, in_image: bool) -> bool
    decreases evs.len(),
{
    if evs.len() == 0 {
        !in_code && !in_image
    } else {
        let e = evs[0];
        let rest = evs.drop_first();
        if in_image {
            stream_wf_from(rest, in_code, !(e is ImageEnd))
        } else if in_code {
            match e {
                EvModel::Text(_) => stream_wf_from(rest, true, false),
                EvModel::CodeEnd => stream_wf_from(rest, false, false),
                _ => false,
            }
        } else {
            match e {
                EvModel::FencedCode(_) => stream_wf_from(rest, true, false),
                EvModel::IndentedCode => stream_wf_from(rest, true, false),
                EvModel::CodeEnd => false,
                EvModel::ImageStart(_) => stream_wf_from(rest, false, true),
                _ => stream_wf_from(rest, false, false),
            }
        }
    }
}

pub open spec fn stream_wf(evs: Seq<EvModel>) -> bool {
    stream_wf_from(evs, false, false)
}

/// What the serializer emits: the HTML for the transformed event list
/// `events`, with pass-through positions resolved against the event
/// stream of `source`.
pub uninterp spec fn html_of(source: Seq<char>, events: Seq<EvModel>) -> Seq<char>;

/// Relies on `pulldown_cmark::Parser::new_ext` (with the table,
/// task-list, strikethrough and math extensions) and on
/// `TextMergeStream`, which merges adjacent text events: tokenization
/// is a pure function of the document, start and end events are
/// balanced, and code-block content arrives as text runs only.
#[verifier::external_body]
pub(crate) fn tokenize(source: &str) -> (evs: Vec<Ev>)
    ensures
        evs.deep_view() == events_of(source@),
        stream_wf(evs.deep_view()),
{
    TextMergeStream::new(Parser::new_ext(source, Options::ENABLE_TABLES | Options::ENABLE_TASKLISTS | Options::ENABLE_STRIKETHROUGH | Options::ENABLE_MATH)).enumerate().map(|(i, e)| match e {
        Event::Text(t) => Ev::Text(t.into_string()),
        Event::Start(CodeBlock(Fenced(f))) => Ev::FencedCode(f.into_string()),
        Event::Start(CodeBlock(Indented)) => Ev::IndentedCode,
        Event::End(EndCodeBlock) => Ev::CodeEnd,
        Event::Start(Image { dest_url, .. }) => Ev::ImageStart(dest_url.into_string()),
        Event::End(EndImage) => Ev::ImageEnd,
        Event::InlineMath(x) => Ev::MathInline(x.into_string()),
        Event::DisplayMath(x) => Ev::MathDisplay(x.into_string()),
        _ => Ev::Passthrough(i),
    }).collect()
}

/// Relies on `pulldown_cmark::html::push_html`, fed the transformed
/// events (text and raw-HTML events as given; pass-through positions
/// replayed from re-tokenizing `source`): the emitted HTML is a
/// function of `source` and `events` alone.  A position out of range
/// and an event kind the pass never emits fall back to a soft break.
#[verifier::external_body]
pub(crate) fn render_events(source: &str, events: &Vec<Ev>) -> (r: String)
    ensures
        r@ == html_of(source@, events.deep_view()),
{
    let merged = TextMergeStream::new(Parser::new_ext(source, Options::ENABLE_TABLES | Options::ENABLE_TASKLISTS | Options::ENABLE_STRIKETHROUGH | Options::ENABLE_MATH));
    let orig: Vec<Event> = merged.collect();
    let mut html = String::new();
    push_html(&mut html, events.iter().map(|ev| match ev {
        Ev::Text(t) => Event::Text(t.clone().into()),
        Ev::Html(h) => Event::Html(h.clone().into()),
        Ev::InlineHtml(h) => Event::InlineHtml(h.clone().into()),
        Ev::ImageEnd => Event::End(EndImage),
        Ev::Passthrough(i) => orig.get(*i).cloned().unwrap_or(Event::SoftBreak),
        _ => Event::SoftBreak,
    }));
    html
}

} // verus!
