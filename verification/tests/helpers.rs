use blog::errors::RenderError;
use blog::event::Ev;
use blog::feed::Author;
use blog::feed::FeedError;
use blog::feed::Post;
use blog::feed::SitemapEntry;
use blog::feed::generate_rss;
use blog::feed::generate_sitemap;
use blog::highlight::Highlighter;
use blog::queries::HireUsRequest;
use blog::queries::count_tags;
use blog::queries::increment_query;
use blog::queries::increment_transaction;
use blog::queries::post_query;
use blog::queries::post_uri_slug;
use blog::queries::posts_query;
use blog::queries::sitemap_posts_query;
use blog::render::Renderer;
use blog::rewrite::rewrite_images;
use blog::seo::SITE_URL;
use blog::seo::absolute_url;
use blog::text::first_token;
use blog::text::split_lines;
use blog::transform::CodeAcc;
use blog::transform::PassAcc;
use blog::transform::is_svg_url;
use blog::transform::step_event;
use blog::transform::transform_events;

const PLAIN_FRAG_FOO: &str =
    r#"<div style="display: flex; justify-content: center;"><img src="foo.png" style="width: 100%;"></div>"#;
const SVG_FRAG_ICON: &str =
    r#"<div style="display: flex; justify-content: center;"><img src="icon.svg" style="filter: invert(100%); width: 100%;"></div>"#;

#[test]
fn absolute_url_keeps_a_leading_slash() {
    assert_eq!(absolute_url("/post/x"), format!("{SITE_URL}/post/x"));
}

#[test]
fn absolute_url_adds_a_missing_slash() {
    assert_eq!(absolute_url("rss.xml"), format!("{SITE_URL}/rss.xml"));
    assert_eq!(absolute_url(""), format!("{SITE_URL}/"));
}

#[test]
fn rewrite_replaces_a_png_image() {
    assert_eq!(rewrite_images("![a](foo.png)"), PLAIN_FRAG_FOO);
}

#[test]
fn rewrite_adds_invert_for_svg() {
    assert_eq!(rewrite_images("![logo](icon.svg)"), SVG_FRAG_ICON);
}

#[test]
fn rewrite_keeps_surrounding_text() {
    let out = rewrite_images("before ![a](foo.png) after");
    assert_eq!(out, format!("before {PLAIN_FRAG_FOO} after"));
}

#[test]
fn rewrite_handles_adjacent_matches() {
    let out = rewrite_images("![a](foo.png)![b](icon.svg)");
    assert_eq!(out, format!("{PLAIN_FRAG_FOO}{SVG_FRAG_ICON}"));
}

#[test]
fn rewrite_ignores_unknown_extensions() {
    assert_eq!(rewrite_images("![a](file.txt)"), "![a](file.txt)");
}

#[test]
fn rewrite_does_not_match_across_lines() {
    let doc = "![a\nb](foo.png)";
    assert_eq!(rewrite_images(doc), doc);
}

#[test]
fn rewrite_is_case_sensitive() {
    assert_eq!(rewrite_images("![a](logo.SVG)"), "![a](logo.SVG)");
}

#[test]
fn rewrite_takes_the_earliest_target_end() {
    let out = rewrite_images("![a](x.png) stray .png)");
    assert_eq!(out, format!(
        r#"<div style="display: flex; justify-content: center;"><img src="x.png" style="width: 100%;"></div> stray .png)"#
    ));
}

#[test]
fn rewrite_matches_both_jpg_forms() {
    assert!(rewrite_images("![p](a.jpg)").contains(r#"src="a.jpg""#));
    assert!(rewrite_images("![p](a.jpeg)").contains(r#"src="a.jpeg""#));
}

#[test]
fn first_token_takes_the_first_word() {
    assert_eq!(first_token("rust ignore this"), "rust");
    assert_eq!(first_token("  spaced"), "spaced");
    assert_eq!(first_token(""), "");
    assert_eq!(first_token("   "), "");
}

#[test]
fn split_lines_matches_str_lines() {
    for doc in ["", "a", "a\nb", "a\nb\n", "a\r\nb\r\n", "\n\n", "one\n\ntwo"] {
        let v: Vec<char> = doc.chars().collect();
        let got = split_lines(&v);
        let want: Vec<String> = doc.lines().map(|l| l.to_string()).collect();
        assert_eq!(got, want, "lines of {doc:?}");
    }
}

#[test]
fn svg_url_rule_lowercases_the_last_segment() {
    assert!(is_svg_url("a.svg"));
    assert!(is_svg_url("a.SVG"));
    assert!(is_svg_url("dir.d/logo.SvG"));
    assert!(!is_svg_url("a.png"));
    assert!(!is_svg_url("a.svg.png"));
}

#[test]
fn posts_query_without_tags_filters_published() {
    assert_eq!(
        posts_query(&Vec::new()),
        "SELECT *, author.* from post WHERE is_published = true ORDER BY created_at DESC;"
    );
}

#[test]
fn posts_query_with_tags_quotes_and_joins() {
    let tags = vec!["rust".to_string(), "wasm".to_string()];
    assert_eq!(
        posts_query(&tags),
        r#"SELECT *, author.* from post WHERE tags CONTAINSANY ["rust", "wasm"] ORDER BY created_at DESC;"#
    );
}

#[test]
fn post_query_quotes_the_slug() {
    assert_eq!(post_query("my-post"), r#"SELECT *, author.* from post WHERE slug = "my-post""#);
}

#[test]
fn increment_query_targets_the_record() {
    assert_eq!(increment_query("abc"), "UPDATE post:abc SET total_views = total_views + 1;");
}

#[test]
fn increment_transaction_inlines_the_slug() {
    let q = increment_transaction("my-post");
    assert!(q.contains(r#"WHERE slug = "my-post""#));
    assert!(q.starts_with("\n        BEGIN TRANSACTION;"));
    assert!(q.contains("UPDATE $post.id SET total_views += 1;"));
    assert!(q.contains("COMMIT TRANSACTION;"));
}

#[test]
fn post_uri_slug_takes_the_last_segment() {
    assert_eq!(post_uri_slug("post/abc"), Some("abc".to_string()));
    assert_eq!(post_uri_slug("post/a/b"), Some("b".to_string()));
    assert_eq!(post_uri_slug("post/"), Some("".to_string()));
}

#[test]
fn post_uri_slug_rejects_other_uris() {
    assert_eq!(post_uri_slug("/post/abc"), None);
    assert_eq!(post_uri_slug("posts"), None);
    assert_eq!(post_uri_slug(""), None);
}

#[test]
fn count_tags_counts_each_distinct_tag() {
    let tags = vec!["a".to_string(), "b".to_string(), "a".to_string(), "c".to_string(), "a".to_string()];
    let counts = count_tags(&tags);
    assert_eq!(counts.len(), 3);
    let map: std::collections::BTreeMap<String, usize> = counts.into_iter().collect();
    assert_eq!(map["a"], 3);
    assert_eq!(map["b"], 1);
    assert_eq!(map["c"], 1);
}

#[test]
fn count_tags_of_nothing_is_empty() {
    assert!(count_tags(&Vec::new()).is_empty());
}

#[test]
fn count_tags_keeps_first_occurrence_order() {
    let tags = vec!["b".to_string(), "a".to_string(), "b".to_string()];
    let counts = count_tags(&tags);
    assert_eq!(counts, vec![("b".to_string(), 2), ("a".to_string(), 1)]);
}

#[test]
fn sitemap_posts_query_selects_published_posts() {
    assert_eq!(
        sitemap_posts_query(),
        "SELECT slug, created_at FROM post WHERE is_published = true ORDER BY created_at DESC;"
    );
}

#[test]
fn date_formatting_converts_to_utc() {
    let rr = Renderer::new();
    let mut p = sample_post();
    p.created_at = "2024-01-01T23:30:00-05:00".to_string();
    assert_eq!(blog::feed::render_post(&rr, &p).unwrap().created_at, "Jan 2");
}

#[test]
fn listing_rejects_a_non_rfc3339_date() {
    let mut p = sample_post();
    p.created_at = "yesterday".to_string();
    assert!(blog::feed::with_display_dates(&vec![p]).is_err());
}

#[test]
fn sitemap_lists_static_pages_and_posts() {
    let entries = vec![SitemapEntry { slug: "hello".to_string(), lastmod: "2024-10-05".to_string() }];
    let xml = generate_sitemap(&entries);
    assert!(xml.starts_with("<?xml version=\"1.0\" encoding=\"UTF-8\"?>\n<urlset"));
    assert!(xml.contains("<loc>https://rust-dd.com/hireus</loc>"));
    assert!(xml.contains("<loc>https://rust-dd.com/post/hello</loc>"));
    assert!(xml.contains("<lastmod>2024-10-05</lastmod>"));
    assert!(xml.ends_with("</urlset>"));
    assert_eq!(xml.matches("<url>").count(), 6);
}

fn sample_post() -> Post {
    let mut p = Post::default();
    p.title = "A title".to_string();
    p.body = "plain words".to_string();
    p.slug = Some("a-title".to_string());
    p.created_at = "2024-10-05T12:33:00Z".to_string();
    p.author = Author { name: "Ada".to_string(), ..Author::default() };
    p
}

#[test]
fn rss_channel_carries_rendered_posts() {
    let rr = Renderer::new();
    let xml = generate_rss(&rr, &vec![sample_post()]).unwrap();
    assert!(xml.contains("<title>Rust-DD</title>"));
    assert!(xml.contains("<link>https://rust-dd.com</link>"));
    assert!(xml.contains("https://rust-dd.com/post/a-title"));
    assert!(xml.contains("plain words"));
    assert!(xml.contains("Ada"));
    assert!(xml.contains("Oct 5"));
}

#[test]
fn rss_needs_a_slug() {
    let rr = Renderer::new();
    let mut p = sample_post();
    p.slug = None;
    assert_eq!(generate_rss(&rr, &vec![p]).unwrap_err(), FeedError::MissingSlug);
}

#[test]
fn rss_rejects_a_bad_date() {
    let rr = Renderer::new();
    let mut p = sample_post();
    p.created_at = "October".to_string();
    assert_eq!(generate_rss(&rr, &vec![p]).unwrap_err(), FeedError::BadDate);
}

#[test]
fn listing_dates_take_the_long_form() {
    let posts = vec![sample_post()];
    let out = blog::feed::with_display_dates(&posts).unwrap();
    assert_eq!(out[0].created_at, "Oct 5, 2024");
    assert_eq!(out[0].body, "plain words");
    assert_eq!(out[0].title, "A title");
}

#[test]
fn a_detail_post_gets_a_short_date_and_rendered_body() {
    let rr = Renderer::new();
    let p = blog::feed::render_post(&rr, &sample_post()).unwrap();
    assert_eq!(p.created_at, "Oct 5");
    assert_eq!(p.body, "<p>plain words</p>\n");
    assert_eq!(p.title, "A title");
}

#[test]
fn step_event_opens_and_closes_a_code_block() {
    let cfg = Highlighter::new();
    let st = PassAcc::new();
    let (st, out) = step_event(&cfg, st, Ev::FencedCode("rust ignore".to_string())).unwrap();
    assert!(out.is_empty());
    assert!(matches!(st.code, CodeAcc::Inside { .. }));
    let (st, out) = step_event(&cfg, st, Ev::Text("let a = 1;\n".to_string())).unwrap();
    assert!(out.is_empty());
    let (st, out) = step_event(&cfg, st, Ev::CodeEnd).unwrap();
    assert!(matches!(st.code, CodeAcc::Outside));
    assert_eq!(out.len(), 1);
    assert!(matches!(&out[0], Ev::Html(h) if h.starts_with("<pre")));
}

#[test]
fn step_event_skips_image_content() {
    let cfg = Highlighter::new();
    let st = PassAcc::new();
    let (st, out) = step_event(&cfg, st, Ev::ImageStart("x.webp".to_string())).unwrap();
    assert!(st.skip);
    assert!(matches!(&out[0], Ev::Html(h) if h.contains(r#"src="x.webp""#)));
    let (st, out) = step_event(&cfg, st, Ev::Text("alt".to_string())).unwrap();
    assert!(st.skip && out.is_empty());
    let (st, out) = step_event(&cfg, st, Ev::ImageEnd).unwrap();
    assert!(!st.skip && out.is_empty());
}

#[test]
fn bare_code_block_end_is_malformed() {
    let cfg = Highlighter::new();
    let r = step_event(&cfg, PassAcc::new(), Ev::CodeEnd);
    assert_eq!(r.unwrap_err(), RenderError::MalformedInput);
}

#[test]
fn unclosed_image_is_malformed() {
    let cfg = Highlighter::new();
    let evs = vec![Ev::ImageStart("a.png".to_string()), Ev::Text("alt".to_string())];
    assert_eq!(transform_events(&cfg, &evs).unwrap_err(), RenderError::MalformedInput);
}

#[test]
fn error_messages_name_the_failure() {
    assert_eq!(RenderError::MathRender.message(), "math rendering failed");
    assert_eq!(RenderError::Highlight.message(), "syntax highlighting failed");
    assert_eq!(RenderError::MalformedInput.message(), "malformed input");
}

#[test]
fn default_post_is_published_and_empty() {
    let p = Post::default();
    assert_eq!(p.id, "post:0");
    assert!(p.is_published);
    assert!(p.title.is_empty() && p.tags.is_empty() && p.slug.is_none());
    assert_eq!(p.author.id, "author:0");
}

#[test]
fn default_hire_us_request_is_empty() {
    let r = HireUsRequest::default();
    assert!(r.name.is_empty() && r.email.is_empty() && r.subject.is_empty() && r.message.is_empty());
}
