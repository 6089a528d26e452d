use vstd::prelude::*;

verus! {

pub const SITE_NAME: &'static str = "Rust-DD Blog - Tech Insights & Consulting";

pub const SITE_DESCRIPTION: &'static str = "Explore open-source Rust projects, learn innovative techniques, and connect with a passionate community. Get expert Rust development and consulting services.";

pub const SITE_URL: &'static str = "https://rust-dd.com";

pub const DEFAULT_OG_IMAGE: &'static str = "https://static.rust-dd.com/rust-dd_custom_bg.png";

pub const X_HANDLE: &'static str = "@rust_dd";

/// The absolute form of `path` under the site's base URL: the base,
/// then `path` with exactly one `/` separating the two.
pub open spec fn spec_absolute_url(path: Seq<char>) -> Seq<char> {
    if path.len() > 0 && path[0] == '/' {
        SITE_URL@ + path
    } else {
        SITE_URL@ + "/"@ + path
    }
}

/// Prefix a site-relative path with the site's base URL.
pub fn absolute_url(path: &str) -> (r: String)
    ensures
        r@ == spec_absolute_url(path@),
{
    let mut out = String::from_str(SITE_URL);
    if path.unicode_len() > 0 && path.get_char(0) == '/' {
        out.append(path);
    } else {
        out.append("/");
        out.append(path);
    }
    out
}

} // verus!
