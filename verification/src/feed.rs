//! Post records and the outbound feed and sitemap builders.
//!
//! The database layer hands records in as plain values; the functions
//! here format their dates, render their markdown bodies once each,
//! and build the syndication-feed XML and the sitemap string.

use vstd::prelude::*;

use crate::errors::RenderError;
use crate::render::Renderer;
use crate::render::spec_render;
use crate::render::spec_render_err;
use crate::text::chars_to_string;
use crate::text::str_to_chars;

verus! {

/// A post's author, as the document store returns it.
#[derive(Debug, Clone)]
pub struct Author {
    pub id: String,
    pub name: String,
    pub email: String,
    pub bio: Option<String>,
    pub linkedin: Option<String>,
    pub twitter: Option<String>,
    pub github: Option<String>,
}

/// Model of an [`Author`].
pub struct AuthorModel {
    pub id: Seq<char>,
    pub name: Seq<char>,
    pub email: Seq<char>,
    pub bio: Option<Seq<char>>,
    pub linkedin: Option<Seq<char>>,
    pub twitter: Option<Seq<char>>,
    pub github: Option<Seq<char>>,
}

impl DeepView for Author {
    type V = AuthorModel;

    open spec fn deep_view(&self) -> AuthorModel {
        AuthorModel {
            id: self.id@,
            name: self.name@,
            email: self.email@,
            bio: self.bio.deep_view(),
            linkedin: self.linkedin.deep_view(),
            twitter: self.twitter.deep_view(),
            github: self.github.deep_view(),
        }
    }
}

impl Default for Author {
    /// The placeholder author record.
    fn default() -> (r: Author)
        ensures
            r.deep_view() == (AuthorModel {
                id: "author:0"@,
                name: Seq::<char>::empty(),
                email: Seq::<char>::empty(),
                bio: None,
                linkedin: None,
                twitter: None,
                github: None,
            }),
    {
        let r = Author {
            id: String::from_str("author:0"),
            name: String::new(),
            email: String::new(),
            bio: None,
            linkedin: None,
            twitter: None,
            github: None,
        };
        proof {
            assert(r.name@ =~= Seq::<char>::empty());
        }
        r
    }
}

/// A blog post, as the document store returns it.
#[derive(Debug, Clone)]
pub struct Post {
    pub id: String,
    pub title: String,
    pub summary: String,
    pub body: String,
    pub tags: Vec<String>,
    pub author: Author,
    pub read_time: usize,
    pub total_views: usize,
    pub slug: Option<String>,
    pub created_at: String,
    pub updated_at: String,
    pub is_published: bool,
    pub header_image: Option<String>,
    pub show_cta: bool,
}

/// Model of a [`Post`].
pub struct PostModel {
    pub id: Seq<char>,
    pub title: Seq<char>,
    pub summary: Seq<char>,
    pub body: Seq<char>,
    pub tags: Seq<Seq<char>>,
    pub author: AuthorModel,
    pub read_time: int,
    pub total_views: int,
    pub slug: Option<Seq<char>>,
    pub created_at: Seq<char>,
    pub updated_at: Seq<char>,
    pub is_published: bool,
    pub header_image: Option<Seq<char>>,
    pub show_cta: bool,
}

impl DeepView for Post {
    type V = PostModel;

    open spec fn deep_view(&self) -> PostModel {
        PostModel {
            id: self.id@,
            title: self.title@,
            summary: self.summary@,
            body: self.body@,
            tags: self.tags.deep_view(),
            author: self.author.deep_view(),
            read_time: self.read_time as int,
            total_views: self.total_views as int,
            slug: self.slug.deep_view(),
            created_at: self.created_at@,
            updated_at: self.updated_at@,
            is_published: self.is_published,
            header_image: self.header_image.deep_view(),
            show_cta: self.show_cta,
        }
    }
}

impl Default for Post {
    /// The placeholder post record; published, with everything else
    /// empty.
    fn default() -> (r: Post)
        ensures
            r.deep_view() == (PostModel {
                id: "post:0"@,
                title: Seq::<char>::empty(),
                summary: Seq::<char>::empty(),
                body: Seq::<char>::empty(),
                tags: Seq::<Seq<char>>::empty(),
                author: AuthorModel {
                    id: "author:0"@,
                    name: Seq::<char>::empty(),
                    email: Seq::<char>::empty(),
                    bio: None,
                    linkedin: None,
                    twitter: None,
                    github: None,
                },
                read_time: 0,
                total_views: 0,
                slug: None,
                created_at: Seq::<char>::empty(),
                updated_at: Seq::<char>::empty(),
                is_published: true,
                header_image: None,
                show_cta: false,
            }),
    {
        let r = Post {
            id: String::from_str("post:0"),
            title: String::new(),
            summary: String::new(),
            body: String::new(),
            tags: Vec::new(),
            author: Author::default(),
            read_time: 0,
            total_views: 0,
            slug: None,
            created_at: String::new(),
            updated_at: String::new(),
            is_published: true,
            header_image: None,
            show_cta: false,
        };
        proof {
            assert(r.title@ =~= Seq::<char>::empty());
            assert(r.tags.deep_view() =~= Seq::<Seq<char>>::empty());
        }
        r
    }
}

/// The `%b %-d` form of an RFC 3339 timestamp taken to UTC: month
/// abbreviation and day without leading zero.
pub uninterp spec fn short_date_of(s: Seq<char>) -> Seq<char>;

/// The `%b %-d, %Y` form: as above, with the year appended.
pub uninterp spec fn long_date_of(s: Seq<char>) -> Seq<char>;

/// Whether `s` parses as an RFC 3339 timestamp — a pure property of
/// the string.
pub uninterp spec fn rfc3339_ok(s: Seq<char>) -> bool;

/// Relies on chrono's `DateTime::parse_from_rfc3339`,
/// `with_timezone(&Utc)`, `date_naive` and `format("%b %-d")`: all
/// deterministic in the timestamp alone, succeeding exactly when the
/// timestamp parses.
#[verifier::external_body]
pub(crate) fn format_date_short(s: &str) -> (r: Result<String, ()>)
    ensures
        r is Ok <==> rfc3339_ok(s@),
        r matches Ok(d) ==> d@ == short_date_of(s@),
{
    match chrono::DateTime::parse_from_rfc3339(s) {
        Ok(dt) => Ok(dt.with_timezone(&chrono::Utc).date_naive().format("%b %-d").to_string()),
        Err(_) => Err(()),
    }
}

/// Relies on the same chrono calls with `format("%b %-d, %Y")`.
#[verifier::external_body]
pub(crate) fn format_date_long(s: &str) -> (r: Result<String, ()>)
    ensures
        r is Ok <==> rfc3339_ok(s@),
        r matches Ok(d) ==> d@ == long_date_of(s@),
{
    match chrono::DateTime::parse_from_rfc3339(s) {
        Ok(dt) => Ok(dt.with_timezone(&chrono::Utc).date_naive().format("%b %-d, %Y").to_string()),
        Err(_) => Err(()),
    }
}

/// One syndication-feed item's fields.
#[derive(Debug, Clone)]
pub struct FeedItem {
    pub author: String,
    pub title: String,
    pub description: String,
    pub link: String,
    pub pub_date: String,
}

/// Model of a [`FeedItem`].
pub struct FeedItemModel {
    pub author: Seq<char>,
    pub title: Seq<char>,
    pub description: Seq<char>,
    pub link: Seq<char>,
    pub pub_date: Seq<char>,
}

impl DeepView for FeedItem {
    type V = FeedItemModel;

    open spec fn deep_view(&self) -> FeedItemModel {
        FeedItemModel {
            author: self.author@,
            title: self.title@,
            description: self.description@,
            link: self.link@,
            pub_date: self.pub_date@,
        }
    }
}

/// The feed XML for a channel with the given head fields and items.
pub uninterp spec fn rss_xml_of(
    title: Seq<char>,
    link: Seq<char>,
    description: Seq<char>,
    items: Seq<FeedItemModel>,
) -> Seq<char>;

/// Relies on the rss crate's `Channel`/`Item` setters and `Display`:
/// the emitted XML is a function of the channel fields and the items
/// alone.
#[verifier::external_body]
fn channel_xml(title: &str, link: &str, description: &str, items: &Vec<FeedItem>) -> (r: String)
    ensures
        r@ == rss_xml_of(title@, link@, description@, items.deep_view()),
{
    let mut channel = rss::Channel::default();
    channel.set_title(title);
    channel.set_link(link);
    channel.set_description(description);
    channel.set_items(items.iter().map(|p| {
        let mut item = rss::Item::default();
        item.set_author(p.author.clone());
        item.set_title(p.title.clone());
        item.set_description(p.description.clone());
        item.set_link(p.link.clone());
        item.set_pub_date(p.pub_date.clone());
        item
    }).collect::<Vec<_>>());
    channel.to_string()
}

/// Why the feed could not be built.
#[derive(Debug, Clone, PartialEq, Eq, Structural)]
pub enum FeedError {
    /// A post's timestamp is not RFC 3339.
    BadDate,
    /// A post has no slug to link to.
    MissingSlug,
    /// A post's body did not render.
    Render(RenderError),
}

/// The item built for one post: its author's name and title as given,
/// the body rendered to HTML, the canonical post link, and the short
/// date as publication date.
pub open spec fn spec_feed_item(p: PostModel) -> FeedItemModel {
    FeedItemModel {
        author: p.author.name,
        title: p.title,
        description: spec_render(p.body)->0,
        link: "https://rust-dd.com/post/"@ + p.slug->0,
        pub_date: short_date_of(p.created_at),
    }
}

pub open spec fn spec_feed_items(posts: Seq<PostModel>) -> Seq<FeedItemModel> {
    Seq::new(posts.len(), |i: int| spec_feed_item(posts[i]))
}

/// The first failure building one feed item meets, if any: an
/// unparsable timestamp, then a failed body render, then a missing
/// slug, in the order the work is done.
pub open spec fn spec_feed_item_err(p: PostModel) -> Option<FeedError> {
    if !rfc3339_ok(p.created_at) {
        Some(FeedError::BadDate)
    } else {
        match spec_render_err(p.body) {
            Some(e) => Some(FeedError::Render(e)),
            None => if p.slug is None {
                Some(FeedError::MissingSlug)
            } else {
                None
            },
        }
    }
}

/// The first failure over the posts from index `i` on, if any.
pub open spec fn spec_feed_err(posts: Seq<PostModel>, i: int) -> Option<FeedError>
    decreases posts.len() - i,
{
    if i < 0 || i >= posts.len() {
        None
    } else {
        match spec_feed_item_err(posts[i]) {
            Some(e) => Some(e),
            None => spec_feed_err(posts, i + 1),
        }
    }
}

/// Build the blog's syndication feed for the given posts: each body is
/// rendered once, each date formatted, and the channel serialized with
/// the blog's fixed head fields.  This succeeds exactly when every
/// post's item can be built, and otherwise returns the first post's
/// first failure.
pub fn generate_rss(rr: &Renderer, posts: &Vec<Post>) -> (r: Result<String, FeedError>)
    ensures
        r is Ok <==> spec_feed_err(posts.deep_view(), 0) is None,
        r matches Err(e) ==> spec_feed_err(posts.deep_view(), 0) == Some(e),
        r matches Ok(x) ==> {
            &&& forall|i: int|
                0 <= i < posts.deep_view().len() ==> (#[trigger] spec_render(
                    posts.deep_view()[i].body,
                )) is Some && posts.deep_view()[i].slug is Some
            &&& x@ == rss_xml_of(
                "Rust-DD"@,
                "https://rust-dd.com"@,
                "Rust-DD Blog – Tech Insights & Consulting"@,
                spec_feed_items(posts.deep_view()),
            )
        },
{
    let n = posts.len();
    let mut items: Vec<FeedItem> = Vec::new();
    let mut i: usize = 0;
    proof {
        assert(items.deep_view() =~= spec_feed_items(posts.deep_view().take(0)));
    }
    while i < n
        invariant
            i <= n == posts@.len(),
            items.deep_view() == spec_feed_items(posts.deep_view().take(i as int)),
            spec_feed_err(posts.deep_view(), 0) == spec_feed_err(posts.deep_view(), i as int),
            forall|k: int|
                0 <= k < i ==> (#[trigger] spec_render(posts.deep_view()[k].body)) is Some
                    && posts.deep_view()[k].slug is Some,
        decreases n - i,
    {
        let ghost items0 = items.deep_view();
        proof {
            assert(items@.len() == items.deep_view().len() == i as int);
            assert(posts.deep_view()[i as int] == posts@[i as int].deep_view());
        }
        let p = &posts[i];
        let date = match format_date_short(p.created_at.as_str()) {
            Ok(d) => d,
            Err(_) => {
                proof {
                    assert(spec_feed_item_err(posts.deep_view()[i as int]) == Some(
                        FeedError::BadDate,
                    ));
                }
                return Err(FeedError::BadDate);
            },
        };
        let body = match rr.render(p.body.as_str()) {
            Ok(h) => h,
            Err(e) => {
                proof {
                    assert(spec_feed_item_err(posts.deep_view()[i as int]) == Some(
                        FeedError::Render(e),
                    ));
                }
                return Err(FeedError::Render(e));
            },
        };
        let slug = match &p.slug {
            Some(s) => s,
            None => {
                proof {
                    assert(spec_feed_item_err(posts.deep_view()[i as int]) == Some(
                        FeedError::MissingSlug,
                    ));
                }
                return Err(FeedError::MissingSlug);
            },
        };
        proof {
            assert(spec_feed_item_err(posts.deep_view()[i as int]) is None);
        }
        let mut link = String::from_str("https://rust-dd.com/post/");
        link.append(slug.as_str());
        items.push(
            FeedItem {
                author: p.author.name.clone(),
                title: p.title.clone(),
                description: body,
                link,
                pub_date: date,
            },
        );
        proof {
            let pm = posts.deep_view()[i as int];
            assert(pm == posts@[i as int].deep_view());
            assert(items.deep_view()[i as int] == items@[i as int].deep_view());
            assert(items.deep_view()[i as int] == spec_feed_item(pm));
            assert(forall|k: int|
                0 <= k < i ==> posts.deep_view().take(i + 1)[k] == #[trigger] posts.deep_view().take(
                    i as int,
                )[k]);
            assert(forall|k: int| 0 <= k < i ==> #[trigger] items.deep_view()[k] == items0[k]);
            assert(forall|k: int|
                0 <= k < i ==> #[trigger] spec_feed_items(posts.deep_view().take(i + 1))[k]
                    == spec_feed_items(posts.deep_view().take(i as int))[k]);
            assert(items.deep_view() =~= spec_feed_items(posts.deep_view().take(i + 1)));
        }
        i = i + 1;
    }
    proof {
        assert(posts.deep_view().take(n as int) =~= posts.deep_view());
        assert(spec_feed_err(posts.deep_view(), n as int) is None);
    }
    Ok(
        channel_xml(
            "Rust-DD",
            "https://rust-dd.com",
            "Rust-DD Blog – Tech Insights & Consulting",
            &items,
        ),
    )
}

/// The same strings, element for element.
fn clone_strings(v: &Vec<String>) -> (r: Vec<String>)
    ensures
        r.deep_view() == v.deep_view(),
{
    let n = v.len();
    let mut r: Vec<String> = Vec::new();
    let mut i: usize = 0;
    while i < n
        invariant
            i <= n == v@.len(),
            r@.len() == i,
            forall|k: int| 0 <= k < i ==> #[trigger] r.deep_view()[k] == v.deep_view()[k],
        decreases n - i,
    {
        let ghost r0 = r.deep_view();
        r.push(v[i].clone());
        proof {
            assert(forall|k: int| 0 <= k < i ==> #[trigger] r.deep_view()[k] == r0[k]);
            assert(r.deep_view()[i as int] == v.deep_view()[i as int]);
        }
        i = i + 1;
    }
    proof {
        assert(r.deep_view() =~= v.deep_view());
    }
    r
}

/// The same optional string.
fn clone_opt_string(o: &Option<String>) -> (r: Option<String>)
    ensures
        r.deep_view() == o.deep_view(),
{
    match o {
        Some(s) => Some(s.clone()),
        None => None,
    }
}

/// The same author record, field for field.
fn clone_author(a: &Author) -> (r: Author)
    ensures
        r.deep_view() == a.deep_view(),
{
    Author {
        id: a.id.clone(),
        name: a.name.clone(),
        email: a.email.clone(),
        bio: clone_opt_string(&a.bio),
        linkedin: clone_opt_string(&a.linkedin),
        twitter: clone_opt_string(&a.twitter),
        github: clone_opt_string(&a.github),
    }
}

/// `p` with another `created_at` and body.
pub open spec fn with_date_and_body(p: PostModel, date: Seq<char>, body: Seq<char>) -> PostModel {
    PostModel { created_at: date, body, ..p }
}

/// One post field-for-field, with the given display date and body.
fn rebuild_post(p: &Post, date: String, body: String) -> (r: Post)
    ensures
        r.deep_view() == with_date_and_body(p.deep_view(), date@, body@),
{
    Post {
        id: p.id.clone(),
        title: p.title.clone(),
        summary: p.summary.clone(),
        body,
        tags: clone_strings(&p.tags),
        author: clone_author(&p.author),
        read_time: p.read_time,
        total_views: p.total_views,
        slug: clone_opt_string(&p.slug),
        created_at: date,
        updated_at: p.updated_at.clone(),
        is_published: p.is_published,
        header_image: clone_opt_string(&p.header_image),
        show_cta: p.show_cta,
    }
}

/// The posts of a listing, each timestamp replaced by its long display
/// date; bodies are left alone, since listings show summaries.  This
/// succeeds exactly when every timestamp parses.
pub fn with_display_dates(posts: &Vec<Post>) -> (r: Result<Vec<Post>, ()>)
    ensures
        r is Ok <==> (forall|i: int|
            0 <= i < posts.deep_view().len() ==> rfc3339_ok(
                (#[trigger] posts.deep_view()[i]).created_at,
            )),
        r matches Ok(v) ==> {
            &&& v.deep_view().len() == posts.deep_view().len()
            &&& forall|i: int|
                0 <= i < v.deep_view().len() ==> #[trigger] v.deep_view()[i] == with_date_and_body(
                    posts.deep_view()[i],
                    long_date_of(posts.deep_view()[i].created_at),
                    posts.deep_view()[i].body,
                )
        },
{
    let n = posts.len();
    let mut out: Vec<Post> = Vec::new();
    let mut i: usize = 0;
    while i < n
        invariant
            i <= n == posts@.len(),
            out@.len() == i,
            forall|k: int|
                0 <= k < i ==> rfc3339_ok((#[trigger] posts.deep_view()[k]).created_at),
            forall|k: int|
                0 <= k < i ==> #[trigger] out.deep_view()[k] == with_date_and_body(
                    posts.deep_view()[k],
                    long_date_of(posts.deep_view()[k].created_at),
                    posts.deep_view()[k].body,
                ),
        decreases n - i,
    {
        let p = &posts[i];
        proof {
            assert(posts.deep_view()[i as int] == posts@[i as int].deep_view());
        }
        let date = match format_date_long(p.created_at.as_str()) {
            Ok(d) => d,
            Err(_) => {
                proof {
                    assert(!rfc3339_ok(posts.deep_view()[i as int].created_at));
                }
                return Err(());
            },
        };
        let body = p.body.clone();
        let ghost out0 = out.deep_view();
        out.push(rebuild_post(p, date, body));
        proof {
            assert(forall|k: int| 0 <= k < i ==> #[trigger] out.deep_view()[k] == out0[k]);
            assert(posts.deep_view()[i as int] == posts@[i as int].deep_view());
            assert(out.deep_view()[i as int] == out@[i as int].deep_view());
        }
        i = i + 1;
    }
    Ok(out)
}

/// The first failure preparing one detail post meets, if any: an
/// unparsable timestamp, then a failed body render.
pub open spec fn spec_detail_err(p: PostModel) -> Option<FeedError> {
    if !rfc3339_ok(p.created_at) {
        Some(FeedError::BadDate)
    } else {
        match spec_render_err(p.body) {
            Some(e) => Some(FeedError::Render(e)),
            None => None,
        }
    }
}

/// One post made ready for its detail page: the timestamp replaced by
/// its short display date and the markdown body rendered to HTML.
/// This succeeds exactly when the timestamp parses and the body
/// renders, and otherwise returns the first of those failures.
pub fn render_post(rr: &Renderer, p: &Post) -> (r: Result<Post, FeedError>)
    ensures
        r is Ok <==> spec_detail_err(p.deep_view()) is None,
        r matches Err(e) ==> spec_detail_err(p.deep_view()) == Some(e),
        r matches Ok(q) ==> {
            &&& spec_render(p.deep_view().body) is Some
            &&& q.deep_view() == with_date_and_body(
                p.deep_view(),
                short_date_of(p.deep_view().created_at),
                spec_render(p.deep_view().body)->0,
            )
        },
{
    let date = match format_date_short(p.created_at.as_str()) {
        Ok(d) => d,
        Err(_) => {
            return Err(FeedError::BadDate);
        },
    };
    let body = match rr.render(p.body.as_str()) {
        Ok(h) => h,
        Err(e) => {
            return Err(FeedError::Render(e));
        },
    };
    Ok(rebuild_post(p, date, body))
}

/// What the sitemap needs of one published post.
#[derive(Debug, Clone)]
pub struct SitemapEntry {
    pub slug: String,
    pub lastmod: String,
}

/// Model of a [`SitemapEntry`].
pub struct SitemapEntryModel {
    pub slug: Seq<char>,
    pub lastmod: Seq<char>,
}

impl DeepView for SitemapEntry {
    type V = SitemapEntryModel;

    open spec fn deep_view(&self) -> SitemapEntryModel {
        SitemapEntryModel { slug: self.slug@, lastmod: self.lastmod@ }
    }
}

/// One `<url>` block for a static page.
pub open spec fn spec_url_entry(loc: Seq<char>, freq: Seq<char>, pri: Seq<char>) -> Seq<char> {
    "<url>\n<loc>"@ + loc + "</loc>\n<changefreq>"@ + freq + "</changefreq>\n<priority>"@ + pri
        + "</priority>\n</url>\n"@
}

/// One `<url>` block for a post.
pub open spec fn spec_post_entry(e: SitemapEntryModel) -> Seq<char> {
    "<url>\n<loc>https://rust-dd.com/post/"@ + e.slug
        + "</loc>\n<changefreq>monthly</changefreq>\n<priority>1.0</priority>\n<lastmod>"@
        + e.lastmod + "</lastmod>\n</url>\n"@
}

/// The post blocks for the first `k` entries, in order.
pub open spec fn spec_post_entries(entries: Seq<SitemapEntryModel>, k: int) -> Seq<char>
    decreases k,
{
    if k <= 0 {
        Seq::empty()
    } else {
        spec_post_entries(entries, k - 1) + spec_post_entry(entries[k - 1])
    }
}

/// The whole sitemap: the XML head, the five static pages, one block
/// per post in the order given, and the closing tag.
pub open spec fn spec_sitemap(entries: Seq<SitemapEntryModel>) -> Seq<char> {
    "<?xml version=\"1.0\" encoding=\"UTF-8\"?>\n"@
        + "<urlset xmlns=\"http://www.sitemaps.org/schemas/sitemap/0.9\">\n"@ + spec_url_entry(
        "https://rust-dd.com/"@,
        "daily"@,
        "0.9"@,
    ) + spec_url_entry("https://rust-dd.com/hireus"@, "weekly"@, "1.0"@) + spec_url_entry(
        "https://rust-dd.com/references"@,
        "weekly"@,
        "0.6"@,
    ) + spec_url_entry("https://rust-dd.com/rss.xml"@, "daily"@, "0.5"@) + spec_url_entry(
        "https://rust-dd.com/sitemap.xml"@,
        "monthly"@,
        "0.5"@,
    ) + spec_post_entries(entries, entries.len() as int) + "</urlset>"@
}

/// Append one static-page block.
fn push_url_entry(out: &mut String, loc: &str, freq: &str, pri: &str)
    ensures
        final(out)@ == old(out)@ + spec_url_entry(loc@, freq@, pri@),
{
    out.append("<url>\n<loc>");
    out.append(loc);
    out.append("</loc>\n<changefreq>");
    out.append(freq);
    out.append("</changefreq>\n<priority>");
    out.append(pri);
    out.append("</priority>\n</url>\n");
}

/// Append one post block.
fn push_post_entry(out: &mut String, e: &SitemapEntry)
    ensures
        final(out)@ == old(out)@ + spec_post_entry(e.deep_view()),
{
    out.append("<url>\n<loc>https://rust-dd.com/post/");
    out.append(e.slug.as_str());
    out.append("</loc>\n<changefreq>monthly</changefreq>\n<priority>1.0</priority>\n<lastmod>");
    out.append(e.lastmod.as_str());
    out.append("</lastmod>\n</url>\n");
}

/// Build the sitemap for the given published posts.
pub fn generate_sitemap(entries: &Vec<SitemapEntry>) -> (r: String)
    ensures
        r@ == spec_sitemap(entries.deep_view()),
{
    let ghost evs = entries.deep_view();
    let mut out = String::from_str("<?xml version=\"1.0\" encoding=\"UTF-8\"?>\n");
    out.append("<urlset xmlns=\"http://www.sitemaps.org/schemas/sitemap/0.9\">\n");
    push_url_entry(&mut out, "https://rust-dd.com/", "daily", "0.9");
    push_url_entry(&mut out, "https://rust-dd.com/hireus", "weekly", "1.0");
    push_url_entry(&mut out, "https://rust-dd.com/references", "weekly", "0.6");
    push_url_entry(&mut out, "https://rust-dd.com/rss.xml", "daily", "0.5");
    push_url_entry(&mut out, "https://rust-dd.com/sitemap.xml", "monthly", "0.5");
    let ghost head = out@;
    let n = entries.len();
    let mut i: usize = 0;
    while i < n
        invariant
            i <= n == entries@.len(),
            evs == entries.deep_view(),
            out@ == head + spec_post_entries(evs, i as int),
        decreases n - i,
    {
        push_post_entry(&mut out, &entries[i]);
        proof {
            assert(entries.deep_view()[i as int] == entries@[i as int].deep_view());
        }
        i = i + 1;
    }
    out.append("</urlset>");
    proof {
        assert(out@ =~= spec_sitemap(evs));
    }
    out
}

} // verus!
