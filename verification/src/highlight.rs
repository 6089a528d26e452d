//! Code-block syntax highlighting.
//!
//! A closed code block's buffered content is highlighted line by line:
//! the fence's language token selects a ruleset (an unknown or absent
//! token falls back to plain text, which never fails), highlighter
//! state persists across the lines of one block, and the concatenated
//! per-line markup is wrapped in one fixed `<pre><code>` shell.
//!
//! The ruleset table and theme are loaded into a [`Highlighter`] once
//! per process and shared read-only by every render call.

use vstd::prelude::*;

use crate::errors::RenderError;
use crate::text::chars_to_string;
use crate::text::spec_lines;
use crate::text::split_lines;
use crate::text::str_to_chars;

verus! {

#[verifier::external_type_specification]
#[verifier::external_body]
pub struct ExSyntaxSet(syntect::parsing::SyntaxSet);

#[verifier::external_type_specification]
#[verifier::external_body]
pub struct ExTheme(syntect::highlighting::Theme);

#[verifier::external_type_specification]
#[verifier::external_body]
pub struct ExHighlightLines<'a>(syntect::easy::HighlightLines<'a>);

/// Shared, read-only highlighting configuration: the default ruleset
/// table and the fixed display theme.  Loaded once per process
/// lifetime and never mutated; every value of this type holds the same
/// two tables, since this is the only way to build one.
pub struct Highlighter {
    syntaxes: syntect::parsing::SyntaxSet,
    theme: syntect::highlighting::Theme,
}

/// Relies on `SyntaxSet::load_defaults_newlines`: the crate's bundled
/// default ruleset table, a fixed value.
#[verifier::external_body]
fn load_default_syntaxes() -> syntect::parsing::SyntaxSet {
    syntect::parsing::SyntaxSet::load_defaults_newlines()
}

/// Relies on `ThemeSet::load_defaults`: the crate's bundled theme
/// table, a fixed value; a name missing from it yields the default
/// theme value.
#[verifier::external_body]
fn load_default_theme(name: &str) -> syntect::highlighting::Theme {
    syntect::highlighting::ThemeSet::load_defaults().themes.remove(name).unwrap_or_default()
}

impl Highlighter {
    /// Load the default ruleset table and the blog's display theme.
    pub fn new() -> Highlighter {
        Highlighter {
            syntaxes: load_default_syntaxes(),
            theme: load_default_theme("base16-eighties.dark"),
        }
    }
}

/// The markup the highlighter emits for one source line: determined by
/// the language token the session was opened with, the lines already
/// fed to the same session (highlighter state persists within a
/// block), and the line itself — all under [`Highlighter`]'s fixed
/// tables.
pub uninterp spec fn hl_line_html(lang: Seq<char>, prev: Seq<Seq<char>>, line: Seq<char>) -> Seq<
    char,
>;

/// Whether highlighting that line succeeds: like the markup itself,
/// determined by the token, the prior lines and the line.
pub uninterp spec fn hl_line_ok(lang: Seq<char>, prev: Seq<Seq<char>>, line: Seq<char>) -> bool;

/// Whether the fixed ruleset table knows `lang` — that is, resolves it
/// to a ruleset of its own rather than falling back to plain text.
pub uninterp spec fn lang_known(lang: Seq<char>) -> bool;

/// One highlighting session per code block.  The ghost fields model
/// what the session has been given: its language token and the lines
/// highlighted so far.
pub(crate) struct HlSession<'a> {
    inner: syntect::easy::HighlightLines<'a>,
    syntaxes: &'a syntect::parsing::SyntaxSet,
    lang: Ghost<Seq<char>>,
    seen: Ghost<Seq<Seq<char>>>,
}

impl<'a> HlSession<'a> {
    /// The language token this session was opened with.
    pub(crate) closed spec fn lang_of(&self) -> Seq<char> {
        self.lang@
    }

    /// The lines highlighted so far.
    pub(crate) closed spec fn seen_of(&self) -> Seq<Seq<char>> {
        self.seen@
    }
}

/// Relies on `SyntaxSet::find_syntax_by_token` with the
/// `find_syntax_plain_text` fallback — so ruleset resolution is total
/// and an unrecognized token highlights as plain text — and on
/// `HighlightLines::new`.
#[verifier::external_body]
fn new_highlight_lines<'a>(cfg: &'a Highlighter, lang: &str) -> syntect::easy::HighlightLines<'a> {
    let syntax = cfg.syntaxes.find_syntax_by_token(lang).unwrap_or_else(
        || cfg.syntaxes.find_syntax_plain_text(),
    );
    syntect::easy::HighlightLines::new(syntax, &cfg.theme)
}

impl<'a> HlSession<'a> {
    /// Open a session for one code block's language token.
    pub(crate) fn new(cfg: &'a Highlighter, lang: &str) -> (s: HlSession<'a>)
        ensures
            s.lang_of() == lang@,
            s.seen_of() == Seq::<Seq<char>>::empty(),
    {
        HlSession {
            inner: new_highlight_lines(cfg, lang),
            syntaxes: &cfg.syntaxes,
            lang: Ghost(lang@),
            seen: Ghost(Seq::empty()),
        }
    }

    /// Relies on `HighlightLines::highlight_line` and
    /// `styled_line_to_highlighted_html` with no background: both are
    /// deterministic, so the markup for a line — and whether the call
    /// succeeds at all — is a function of the session's language
    /// token, the lines fed before it, and the line.  A session opened
    /// with a token the table does not know runs the plain-text
    /// ruleset, whose one empty context can never fail a line.
    #[verifier::external_body]
    pub(crate) fn line(&mut self, line: &str) -> (r: Result<String, ()>)
        ensures
            r is Ok <==> hl_line_ok(old(self).lang_of(), old(self).seen_of(), line@),
            !lang_known(old(self).lang_of()) ==> r is Ok,
            r matches Ok(h) ==> h@ == hl_line_html(
                old(self).lang_of(),
                old(self).seen_of(),
                line@,
            ),
            final(self).lang_of() == old(self).lang_of(),
            final(self).seen_of() == old(self).seen_of().push(line@),
    {
        let ranges = match self.inner.highlight_line(line, self.syntaxes) {
            Ok(r) => r,
            Err(_) => {
                return Err(());
            },
        };
        match syntect::html::styled_line_to_highlighted_html(
            &ranges[..],
            syntect::html::IncludeBackground::No,
        ) {
            Ok(h) => Ok(h),
            Err(_) => Err(()),
        }
    }
}

/// Opening of the fixed shell every highlighted block is wrapped in.
pub const CODE_OPEN: &'static str = r#"<pre style="background-color: #2b303b; padding: 8px; border-radius: 8px"><code>"#;

/// Closing of the shell.
pub const CODE_CLOSE: &'static str = "</code></pre>";

/// The language token handed to ruleset resolution: the fence's first
/// info-string token, or the plain-text name for indented blocks.
pub open spec fn resolve_lang(lang: Option<Seq<char>>) -> Seq<char> {
    match lang {
        Some(l) => l,
        None => "plaintext"@,
    }
}

/// The concatenation of the first `k` lines' highlighted markup, each
/// line followed by a newline.
pub open spec fn hl_body(lang: Seq<char>, lines: Seq<Seq<char>>, k: int) -> Seq<char>
    decreases k,
{
    if k <= 0 {
        Seq::empty()
    } else {
        hl_body(lang, lines, k - 1) + hl_line_html(lang, lines.take(k - 1), lines[k - 1]) + seq![
            '\n',
        ]
    }
}

/// The single HTML block emitted for a closed code block: the shell
/// around every buffered line's markup, lines in original order, none
/// dropped or duplicated, a trailing unterminated line included.
pub open spec fn spec_code_html(lang: Option<Seq<char>>, buf: Seq<char>) -> Seq<char> {
    let l = resolve_lang(lang);
    let lines = spec_lines(buf);
    CODE_OPEN@ + hl_body(l, lines, lines.len() as int) + CODE_CLOSE@
}

/// Whether highlighting the whole buffered block succeeds: every line
/// in turn, under the resolved token.
pub open spec fn spec_block_ok(lang: Option<Seq<char>>, buf: Seq<char>) -> bool {
    let l = resolve_lang(lang);
    let lines = spec_lines(buf);
    forall|k: int|
        0 <= k < lines.len() ==> hl_line_ok(l, #[trigger] lines.take(k), lines[k])
}

/// Highlight a closed code block's buffered content.  This succeeds
/// exactly when every buffered line highlights, and always succeeds
/// for a token the ruleset table does not know: an unrecognized or
/// absent language tag falls back to plain text and never fails.
pub fn code_block_html(cfg: &Highlighter, lang: &Option<String>, buf: &Vec<char>) -> (r: Result<
    String,
    RenderError,
>)
    ensures
        r is Ok <==> spec_block_ok(lang.deep_view(), buf@),
        !lang_known(resolve_lang(lang.deep_view())) ==> r is Ok,
        r matches Ok(h) ==> h@ == spec_code_html(lang.deep_view(), buf@),
        r matches Err(e) ==> e is Highlight,
{
    let lang_str: &str = match lang {
        Some(l) => l.as_str(),
        None => "plaintext",
    };
    proof {
        assert(lang_str@ == resolve_lang(lang.deep_view()));
    }
    let mut sess = HlSession::new(cfg, lang_str);
    let lines = split_lines(buf);
    let n = lines.len();
    let mut out: Vec<char> = str_to_chars(CODE_OPEN);
    let mut k: usize = 0;
    while k < n
        invariant
            k <= n == lines@.len(),
            lines.deep_view() == spec_lines(buf@),
            sess.lang_of() == resolve_lang(lang.deep_view()),
            sess.seen_of() == lines.deep_view().take(k as int),
            out@ == CODE_OPEN@ + hl_body(sess.lang_of(), lines.deep_view(), k as int),
            forall|j: int|
                0 <= j < k ==> hl_line_ok(
                    sess.lang_of(),
                    #[trigger] lines.deep_view().take(j),
                    lines.deep_view()[j],
                ),
        decreases n - k,
    {
        let ghost out0 = out@;
        let h = match sess.line(lines[k].as_str()) {
            Ok(h) => h,
            Err(_) => {
                proof {
                    assert(!hl_line_ok(
                        resolve_lang(lang.deep_view()),
                        spec_lines(buf@).take(k as int),
                        spec_lines(buf@)[k as int],
                    ));
                    assert(!spec_block_ok(lang.deep_view(), buf@));
                }
                return Err(RenderError::Highlight);
            },
        };
        let mut hc = str_to_chars(h.as_str());
        out.append(&mut hc);
        out.push('\n');
        proof {
            assert(lines.deep_view().take(k as int).push(lines.deep_view()[k as int])
                =~= lines.deep_view().take(k + 1));
            assert(out@ =~= CODE_OPEN@ + hl_body(sess.lang_of(), lines.deep_view(), k + 1));
        }
        k = k + 1;
    }
    let mut close = str_to_chars(CODE_CLOSE);
    out.append(&mut close);
    proof {
        assert(out@ =~= spec_code_html(lang.deep_view(), buf@));
        assert(spec_block_ok(lang.deep_view(), buf@));
    }
    Ok(chars_to_string(&out))
}

} // verus!
