//! Content-rendering pipeline of a blog platform.
//!
//! The heart of the crate is [`render`](render::render), which turns an
//! author-written markdown document into styled HTML: inline images are
//! rewritten to centered `<img>` wrappers, fenced code blocks are syntax
//! highlighted, and `$...$` / `$$...$$` math is rendered to markup.
//! Around it sit small verified helpers used by the blog's feed, sitemap
//! and database layers.

pub mod errors;
pub mod event;
pub mod feed;
pub mod highlight;
pub mod laws;
pub mod math;
pub mod queries;
pub mod render;
pub mod rewrite;
pub mod seo;
pub mod stream;
pub mod text;
pub mod transform;
