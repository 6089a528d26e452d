use blog::errors::RenderError;
use blog::render::Renderer;
use blog::render::render;

fn strip_tags(html: &str) -> String {
    let mut out = String::new();
    let mut in_tag = false;
    for c in html.chars() {
        if c == '<' {
            in_tag = true;
        } else if c == '>' {
            in_tag = false;
        } else if !in_tag {
            out.push(c);
        }
    }
    out
}

fn code_block_region(html: &str) -> &str {
    let start = html.find("<pre").unwrap();
    let end = html.find("</code></pre>").unwrap();
    &html[start..end + "</code></pre>".len()]
}

#[test]
fn scenario_bold_text_and_code_block() {
    let html = render("Hello **world**\n\n```rust\nfn main() {}\n```\n").unwrap();
    assert!(html.contains("<strong>world</strong>"));
    assert_eq!(html.matches("<pre").count(), 1);
    let code = code_block_region(&html);
    assert_eq!(strip_tags(code).trim(), "fn main() {}");
    // the block really is highlighted, not passed through bare
    assert!(code.contains("<span"));
}

#[test]
fn scenario_png_image_centered_without_invert() {
    let html = render("![a](foo.png)").unwrap();
    assert!(html.contains(
        r#"<div style="display: flex; justify-content: center;"><img src="foo.png" style="width: 100%;"></div>"#
    ));
    assert!(!html.contains("invert"));
    assert!(!html.contains("alt="));
}

#[test]
fn scenario_svg_image_gets_invert_filter() {
    let html = render("![logo](icon.svg)").unwrap();
    assert!(html.contains(r#"<img src="icon.svg" style="filter: invert(100%); width: 100%;">"#));
}

#[test]
fn scenario_unterminated_code_block_is_not_an_error() {
    let html = render("```rust\nlet x = 1;").unwrap();
    assert!(html.contains("<pre"));
    assert!(strip_tags(code_block_region(&html)).contains("let x = 1;"));
}

#[test]
fn scenario_inline_math_has_no_block_wrapper() {
    let html = render("$x^2$").unwrap();
    assert!(html.contains("katex"));
    assert!(!html.contains("katex-display"));
}

#[test]
fn scenario_display_math_has_block_wrapper() {
    let html = render("$$x^2$$").unwrap();
    assert!(html.contains("katex-display"));
}

#[test]
fn repeated_renders_are_byte_identical() {
    let doc = "# T\n\n![a](b.svg)\n\n```rust\nlet y = 2;\n```\n\n$e^x$\n";
    let rr = Renderer::new();
    let first = rr.render(doc).unwrap();
    let second = rr.render(doc).unwrap();
    assert_eq!(first, second);
    let other = Renderer::new().render(doc).unwrap();
    assert_eq!(first, other);
}

#[test]
fn repeated_failing_renders_agree() {
    let doc = "$\\nosuchmacroxyz$";
    let rr = Renderer::new();
    assert_eq!(rr.render(doc).unwrap_err(), rr.render(doc).unwrap_err());
}

#[test]
fn code_block_lines_kept_in_order() {
    let html = render("```\nalpha\n\ngamma\ndelta\n```\n").unwrap();
    let text = strip_tags(code_block_region(&html));
    assert_eq!(text.trim_start_matches('\n').trim_end(), "alpha\n\ngamma\ndelta");
}

#[test]
fn unknown_language_tag_falls_back_to_plain_text() {
    let html = render("```nosuchlanguagetag\nplain words here\n```\n").unwrap();
    assert!(html.contains("<pre"));
    assert!(strip_tags(&html).contains("plain words here"));
}

#[test]
fn malformed_math_is_a_math_render_error() {
    let out = render("$\\nosuchmacroxyz$");
    assert_eq!(out.unwrap_err(), RenderError::MathRender);
}

#[test]
fn alt_text_never_reaches_the_output() {
    let html = render("![uniquealtword](pic.jpeg)").unwrap();
    assert!(!html.contains("uniquealtword"));
    let html2 = render("![second unique phrase](file.tiff)").unwrap();
    assert!(!html2.contains("second unique phrase"));
}

#[test]
fn upper_case_svg_extension_is_recognized_at_the_event_level() {
    let html = render("![l](logo.SVG)").unwrap();
    assert!(html.contains("filter: invert(100%)"));
}

#[test]
fn unlisted_extension_is_wrapped_by_the_event_pass() {
    let html = render("![alt words](file.tiff)").unwrap();
    assert!(html.contains(r#"<img src="file.tiff" style="width: 100%;">"#));
    assert!(!html.contains("alt words"));
}

#[test]
fn empty_document_renders_to_empty_output() {
    assert_eq!(render("").unwrap(), "");
}

#[test]
fn indented_code_block_is_highlighted_as_plain_text() {
    let html = render("    indented code line\n").unwrap();
    assert!(html.contains("<pre"));
    assert!(strip_tags(code_block_region(&html)).contains("indented code line"));
}

#[test]
fn tables_and_strikethrough_pass_through() {
    let html = render("| a | b |\n|---|---|\n| 1 | 2 |\n\n~~gone~~\n").unwrap();
    assert!(html.contains("<table>"));
    assert!(html.contains("<del>gone</del>"));
}
