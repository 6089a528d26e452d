//! The compute side of the database and mail endpoints: query-string
//! builders, the view-counting middleware's decision, and tag
//! counting.  The calls that run these queries stay outside the
//! library; they hand plain values in and take plain values back.

use vstd::prelude::*;

use crate::text::chars_to_string;
use crate::text::copy_range;
use crate::text::str_to_chars;

verus! {

/// A request from the hire-us form.
#[derive(Debug, Clone)]
pub struct HireUsRequest {
    pub name: String,
    pub email: String,
    pub subject: String,
    pub message: String,
}

impl Default for HireUsRequest {
    /// The empty request.
    fn default() -> (r: HireUsRequest)
        ensures
            r.name@ == Seq::<char>::empty(),
            r.email@ == Seq::<char>::empty(),
            r.subject@ == Seq::<char>::empty(),
            r.message@ == Seq::<char>::empty(),
    {
        let r = HireUsRequest {
            name: String::new(),
            email: String::new(),
            subject: String::new(),
            message: String::new(),
        };
        r
    }
}

/// The tag list rendered for the tagged-posts query: each tag in
/// double quotes, tags joined by `, `.
pub open spec fn spec_quoted_tags(tags: Seq<Seq<char>>, k: int) -> Seq<char>
    decreases k,
{
    if k <= 0 {
        Seq::empty()
    } else if k == 1 {
        "\""@ + tags[0] + "\""@
    } else {
        spec_quoted_tags(tags, k - 1) + ", "@ + "\""@ + tags[k - 1] + "\""@
    }
}

/// The posts query: published posts newest first; with tags given,
/// posts carrying any of them, newest first.
pub open spec fn spec_posts_query(tags: Seq<Seq<char>>) -> Seq<char> {
    if tags.len() == 0 {
        "SELECT *, author.* from post WHERE is_published = true ORDER BY created_at DESC;"@
    } else {
        "SELECT *, author.* from post WHERE tags CONTAINSANY ["@ + spec_quoted_tags(
            tags,
            tags.len() as int,
        ) + "] ORDER BY created_at DESC;"@
    }
}

/// Build the posts query for a tag selection.
pub fn posts_query(tags: &Vec<String>) -> (r: String)
    ensures
        r@ == spec_posts_query(tags.deep_view()),
{
    let n = tags.len();
    if n == 0 {
        return String::from_str(
            "SELECT *, author.* from post WHERE is_published = true ORDER BY created_at DESC;",
        );
    }
    let mut out = String::from_str("SELECT *, author.* from post WHERE tags CONTAINSANY [");
    let ghost head = out@;
    let mut i: usize = 0;
    while i < n
        invariant
            i <= n == tags@.len(),
            n > 0,
            out@ == head + spec_quoted_tags(tags.deep_view(), i as int),
        decreases n - i,
    {
        if i > 0 {
            out.append(", ");
        }
        out.append("\"");
        out.append(tags[i].as_str());
        out.append("\"");
        proof {
            assert(tags.deep_view()[i as int] == tags@[i as int].deep_view());
        }
        i = i + 1;
    }
    out.append("] ORDER BY created_at DESC;");
    proof {
        assert(out@ =~= spec_posts_query(tags.deep_view()));
    }
    out
}

/// The single-post query for a slug.
pub open spec fn spec_post_query(slug: Seq<char>) -> Seq<char> {
    "SELECT *, author.* from post WHERE slug = \""@ + slug + "\""@
}

/// The query the sitemap's caller runs for the published posts'
/// slugs and timestamps, newest first.
pub fn sitemap_posts_query() -> (r: String)
    ensures
        r@ == "SELECT slug, created_at FROM post WHERE is_published = true ORDER BY created_at DESC;"@,
{
    String::from_str(
        "SELECT slug, created_at FROM post WHERE is_published = true ORDER BY created_at DESC;",
    )
}

/// Build the single-post query.
pub fn post_query(slug: &str) -> (r: String)
    ensures
        r@ == spec_post_query(slug@),
{
    let mut out = String::from_str("SELECT *, author.* from post WHERE slug = \"");
    out.append(slug);
    out.append("\"");
    out
}

/// The view-count update for a post id.
pub open spec fn spec_increment_query(id: Seq<char>) -> Seq<char> {
    "UPDATE post:"@ + id + " SET total_views = total_views + 1;"@
}

/// Build the view-count update.
pub fn increment_query(id: &str) -> (r: String)
    ensures
        r@ == spec_increment_query(id@),
{
    let mut out = String::from_str("UPDATE post:");
    out.append(id);
    out.append(" SET total_views = total_views + 1;");
    out
}

/// The view-count transaction the middleware runs for a slug.
pub open spec fn spec_increment_transaction(slug: Seq<char>) -> Seq<char> {
    "\n        BEGIN TRANSACTION;\n        LET $post = array::first(SELECT id from post WHERE slug = \""@
        + slug
        + "\");\n        UPDATE $post.id SET total_views += 1;\n        COMMIT TRANSACTION;\n    "@
}

/// Build the view-count transaction.
pub fn increment_transaction(slug: &str) -> (r: String)
    ensures
        r@ == spec_increment_transaction(slug@),
{
    let mut out = String::from_str(
        "\n        BEGIN TRANSACTION;\n        LET $post = array::first(SELECT id from post WHERE slug = \"",
    );
    out.append(slug);
    out.append(
        "\");\n        UPDATE $post.id SET total_views += 1;\n        COMMIT TRANSACTION;\n    ",
    );
    out
}

/// The last `/`-separated segment of `u`: everything after the final
/// slash, or all of `u` when it has none.
pub open spec fn last_slash(u: Seq<char>, i: int) -> Option<int>
    decreases i,
{
    if i <= 0 || i > u.len() {
        None
    } else if u[i - 1] == '/' {
        Some(i - 1)
    } else {
        last_slash(u, i - 1)
    }
}

pub open spec fn spec_last_segment(u: Seq<char>) -> Seq<char> {
    match last_slash(u, u.len() as int) {
        Some(d) => u.subrange(d + 1, u.len() as int),
        None => u,
    }
}

/// The middleware's rule: a request is a post view exactly when its
/// URI starts with `post/`; the post's slug is the URI's last segment.
pub open spec fn spec_post_uri_slug(u: Seq<char>) -> Option<Seq<char>> {
    if u.len() >= 5 && u.subrange(0, 5) == "post/"@ {
        Some(spec_last_segment(u))
    } else {
        None
    }
}

/// Decide whether a request URI is a post view, and for which slug.
pub fn post_uri_slug(u: &str) -> (r: Option<String>)
    ensures
        r.deep_view() == spec_post_uri_slug(u@),
{
    proof {
        reveal_strlit("post/");
    }
    let v = str_to_chars(u);
    let n = v.len();
    let prefix = str_to_chars("post/");
    if n < 5 {
        proof {
            assert(spec_post_uri_slug(u@) is None);
        }
        return None;
    }
    let mut k: usize = 0;
    while k < 5
        invariant
            k <= 5 <= n == v@.len(),
            v@ == u@,
            prefix@ == "post/"@,
            "post/"@.len() == 5,
            forall|q: int| 0 <= q < k ==> v@[q] == "post/"@[q],
        decreases 5 - k,
    {
        if v[k] != prefix[k] {
            proof {
                assert(v@.subrange(0, 5)[k as int] != "post/"@[k as int]);
            }
            return None;
        }
        k = k + 1;
    }
    proof {
        assert(v@.subrange(0, 5) =~= "post/"@);
    }
    let mut i: usize = n;
    while i > 0
        invariant
            i <= n == v@.len(),
            v@ == u@,
            u@.len() >= 5 && u@.subrange(0, 5) == "post/"@,
            last_slash(v@, n as int) == last_slash(v@, i as int),
        decreases i,
    {
        if v[i - 1] == '/' {
            let seg = copy_range(&v, i, n);
            proof {
                assert(last_slash(v@, i as int) == Some(i - 1));
            }
            return Some(chars_to_string(&seg));
        }
        i = i - 1;
    }
    proof {
        assert(last_slash(v@, 0int) is None);
    }
    Some(String::from_str(u))
}

/// How often `t` occurs in `tags`.
pub open spec fn occurrences(tags: Seq<Seq<char>>, t: Seq<char>) -> nat
    decreases tags.len(),
{
    if tags.len() == 0 {
        0
    } else {
        occurrences(tags.drop_last(), t) + if tags.last() == t {
            1nat
        } else {
            0nat
        }
    }
}

proof fn lemma_occurrences_take(tags: Seq<Seq<char>>, i: int, t: Seq<char>)
    requires
        0 <= i < tags.len(),
    ensures
        occurrences(tags.take(i + 1), t) == occurrences(tags.take(i), t) + if tags[i] == t {
            1nat
        } else {
            0nat
        },
{
    assert(tags.take(i + 1).drop_last() =~= tags.take(i));
    assert(tags.take(i + 1).last() == tags[i]);
}

proof fn lemma_member_occurrences(tags: Seq<Seq<char>>, k: int)
    requires
        0 <= k < tags.len(),
    ensures
        occurrences(tags, tags[k]) > 0,
    decreases tags.len(),
{
    if k < tags.len() - 1 {
        lemma_member_occurrences(tags.drop_last(), k);
    }
}

/// Index of the first occurrence of `t` in `tags` (the length when
/// `t` is absent).
pub open spec fn first_occurrence(tags: Seq<Seq<char>>, t: Seq<char>) -> int
    decreases tags.len(),
{
    if tags.len() == 0 {
        0
    } else if tags.first() == t {
        0
    } else {
        1 + first_occurrence(tags.drop_first(), t)
    }
}

proof fn lemma_first_occ_at(tags: Seq<Seq<char>>, i: int)
    requires
        0 <= i < tags.len(),
        forall|k: int| 0 <= k < i ==> tags[k] != tags[i],
    ensures
        first_occurrence(tags, tags[i]) == i,
    decreases i,
{
    if i > 0 {
        assert(tags.first() != tags[i]);
        assert(forall|k: int| 0 <= k < i - 1 ==> #[trigger] tags.drop_first()[k] == tags[k + 1]);
        assert(tags.drop_first()[i - 1] == tags[i]);
        lemma_first_occ_at(tags.drop_first(), i - 1);
    }
}

proof fn lemma_occurrences_member(tags: Seq<Seq<char>>, t: Seq<char>)
    requires
        occurrences(tags, t) > 0,
    ensures
        exists|k: int| 0 <= k < tags.len() && tags[k] == t,
    decreases tags.len(),
{
    if tags.last() != t {
        lemma_occurrences_member(tags.drop_last(), t);
        let k = choose|k: int| 0 <= k < tags.drop_last().len() && tags.drop_last()[k] == t;
        assert(tags[k] == t);
    }
}

/// Some entry of `rv` carries key `t`.
pub open spec fn has_key(rv: Seq<(Seq<char>, usize)>, t: Seq<char>) -> bool {
    exists|a: int| 0 <= a < rv.len() && (#[trigger] rv[a]).0 == t
}

/// Count how often each tag occurs.  The result holds each distinct
/// tag of the input exactly once, with its number of occurrences, in
/// the order the tags first occur; no other key appears.  (Callers
/// wanting the original endpoint's key-sorted view pour the pairs
/// into an ordered map.)
pub fn count_tags(tags: &Vec<String>) -> (r: Vec<(String, usize)>)
    ensures
        forall|a: int, b: int|
            0 <= a < b < r.deep_view().len() ==> (#[trigger] r.deep_view()[a]).0 != (
            #[trigger] r.deep_view()[b]).0,
        forall|a: int, b: int|
            0 <= a < b < r.deep_view().len() ==> first_occurrence(
                tags.deep_view(),
                (#[trigger] r.deep_view()[a]).0,
            ) < first_occurrence(tags.deep_view(), (#[trigger] r.deep_view()[b]).0),
        forall|a: int|
            0 <= a < r.deep_view().len() ==> (#[trigger] r.deep_view()[a]).1 == occurrences(
                tags.deep_view(),
                r.deep_view()[a].0,
            ) && occurrences(tags.deep_view(), r.deep_view()[a].0) > 0,
        forall|k: int|
            0 <= k < tags.deep_view().len() ==> has_key(
                r.deep_view(),
                #[trigger] tags.deep_view()[k],
            ),
{
    let ghost tv = tags.deep_view();
    let n = tags.len();
    let mut r: Vec<(String, usize)> = Vec::new();
    let mut i: usize = 0;
    proof {
        assert(tv.take(0) =~= Seq::<Seq<char>>::empty());
    }
    while i < n
        invariant
            i <= n == tags@.len(),
            tv == tags.deep_view(),
            forall|a: int, b: int|
                0 <= a < b < r.deep_view().len() ==> (#[trigger] r.deep_view()[a]).0 != (
                #[trigger] r.deep_view()[b]).0,
            forall|a: int|
                0 <= a < r.deep_view().len() ==> (#[trigger] r.deep_view()[a]).1 == occurrences(
                    tv.take(i as int),
                    r.deep_view()[a].0,
                ) && occurrences(tv.take(i as int), r.deep_view()[a].0) > 0,
            forall|k: int| 0 <= k < i ==> has_key(r.deep_view(), #[trigger] tv[k]),
            forall|a: int| 0 <= a < r@.len() ==> (#[trigger] r@[a]).1 <= i,
            forall|a: int|
                0 <= a < r.deep_view().len() ==> first_occurrence(
                    tv,
                    (#[trigger] r.deep_view()[a]).0,
                ) < i,
            forall|a: int, b: int|
                0 <= a < b < r.deep_view().len() ==> first_occurrence(
                    tv,
                    (#[trigger] r.deep_view()[a]).0,
                ) < first_occurrence(tv, (#[trigger] r.deep_view()[b]).0),
        decreases n - i,
    {
        let ghost old_r = r.deep_view();
        let t = &tags[i];
        proof {
            assert(tv[i as int] == tags@[i as int].deep_view());
            lemma_occurrences_take(tv, i as int, t@);
            assert forall|x: Seq<char>| x != t@ implies occurrences(tv.take(i + 1), x)
                == occurrences(tv.take(i as int), x) by {
                lemma_occurrences_take(tv, i as int, x);
            }
        }
        let m = r.len();
        let mut j: usize = 0;
        let mut found = false;
        while j < m && !found
            invariant
                j <= m == r@.len(),
                old_r == r.deep_view(),
                t@ == tv[i as int],
                !found ==> forall|a: int| 0 <= a < j ==> (#[trigger] r.deep_view()[a]).0 != t@,
                found ==> j < m && r.deep_view()[j as int].0 == t@,
            decreases m - j + if found {
                0int
            } else {
                1int
            },
        {
            if r[j].0 == *t {
                found = true;
            } else {
                j = j + 1;
            }
        }
        if found {
            let pair = r.remove(j);
            let (key, c) = pair;
            proof {
                assert(old_r[j as int] == (key@, c));
                assert(c <= i);
            }
            r.insert(j, (key, c + 1));
            proof {
                let newr = r.deep_view();
                assert(r@.len() == old_r.len());
                assert forall|a: int| 0 <= a < newr.len() implies #[trigger] newr[a] == (if a == j {
                    (old_r[j as int].0, (old_r[j as int].1 + 1) as usize)
                } else {
                    old_r[a]
                }) by {
                }
                // keys are unchanged, so distinctness and membership carry
                assert(forall|a: int| 0 <= a < newr.len() ==> (#[trigger] newr[a]).0 == old_r[a].0);
                assert forall|k: int| 0 <= k < i + 1 implies has_key(newr, #[trigger] tv[k]) by {
                    if k < i {
                        let a = choose|a: int| 0 <= a < old_r.len() && (#[trigger] old_r[a]).0
                            == tv[k];
                        assert((newr[a]).0 == tv[k]);
                    } else {
                        assert((newr[j as int]).0 == t@);
                    }
                }
                // counts: the matched key gains one, every other is untouched
                assert forall|a: int| 0 <= a < newr.len() implies (#[trigger] newr[a]).1
                    == occurrences(tv.take(i + 1), newr[a].0) && occurrences(
                    tv.take(i + 1),
                    newr[a].0,
                ) > 0 by {
                    if a == j {
                        assert(newr[a].0 == t@);
                        assert(old_r[j as int].1 == occurrences(tv.take(i as int), t@));
                    } else {
                        assert(newr[a] == old_r[a]);
                        assert(old_r[a].0 != t@);
                    }
                }
            }
        } else {
            r.push((t.clone(), 1));
            proof {
                let newr = r.deep_view();
                assert(newr.len() == old_r.len() + 1);
                assert forall|a: int| 0 <= a < newr.len() implies #[trigger] newr[a] == (if a
                    < old_r.len() {
                    old_r[a]
                } else {
                    (t@, 1usize)
                }) by {
                }
                // the new key was absent, so its old count is zero
                assert(forall|a: int| 0 <= a < old_r.len() ==> (#[trigger] old_r[a]).0 != t@);
                if occurrences(tv.take(i as int), t@) > 0 {
                    lemma_occurrences_member(tv.take(i as int), t@);
                    let k = choose|k: int|
                        0 <= k < tv.take(i as int).len() && tv.take(i as int)[k] == t@;
                    assert(has_key(old_r, tv[k]));
                    assert(false);
                }
                assert(occurrences(tv.take(i + 1), t@) == 1);
                // the new key first occurs exactly here
                assert forall|k: int| 0 <= k < i implies tv[k] != t@ by {
                    if tv[k] == t@ {
                        assert(tv.take(i as int)[k] == t@);
                        lemma_member_occurrences(tv.take(i as int), k);
                    }
                }
                lemma_first_occ_at(tv, i as int);
                assert(first_occurrence(tv, t@) == i as int);
                assert forall|k: int| 0 <= k < i + 1 implies has_key(newr, #[trigger] tv[k]) by {
                    if k < i {
                        let a = choose|a: int| 0 <= a < old_r.len() && (#[trigger] old_r[a]).0
                            == tv[k];
                        assert((newr[a]).0 == tv[k]);
                    } else {
                        assert((newr[old_r.len() as int]).0 == t@);
                    }
                }
            }
        }
        i = i + 1;
    }
    proof {
        assert(tv.take(n as int) =~= tv);
    }
    r
}

} // verus!
