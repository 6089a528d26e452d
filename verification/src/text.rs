use vstd::prelude::*;

verus! {

/// Unicode white-space, the class the tokenizer's info-string splitting
/// goes by (the `White_Space` property).
pub open spec fn spec_is_ws(c: char) -> bool {
    ||| c == ' '
    ||| c == '\t'
    ||| c == '\n'
    ||| c == '\r'
    ||| c as u32 == 0x0b
    ||| c as u32 == 0x0c
    ||| c as u32 == 0x85
    ||| c as u32 == 0xa0
    ||| c as u32 == 0x1680
    ||| (0x2000 <= c as u32 && c as u32 <= 0x200a)
    ||| c as u32 == 0x2028
    ||| c as u32 == 0x2029
    ||| c as u32 == 0x202f
    ||| c as u32 == 0x205f
    ||| c as u32 == 0x3000
}

pub fn is_ws(c: char) -> (r: bool)
    ensures
        r == spec_is_ws(c),
{
    let u = c as u32;
    u == 0x20 || u == 0x09 || u == 0x0a || u == 0x0d || u == 0x0b || u == 0x0c || u == 0x85
        || u == 0xa0 || u == 0x1680 || (0x2000 <= u && u <= 0x200a) || u == 0x2028 || u == 0x2029
        || u == 0x202f || u == 0x205f || u == 0x3000
}

/// Lower-case image of an ASCII letter; other characters unchanged.
pub open spec fn ascii_lower_char(c: char) -> char {
    if 'A' <= c && c <= 'Z' {
        ((c as u32) + 32) as char
    } else {
        c
    }
}

pub open spec fn ascii_lower(s: Seq<char>) -> Seq<char> {
    s.map_values(|c: char| ascii_lower_char(c))
}

/// An ASCII code point.
pub open spec fn is_ascii_char(c: char) -> bool {
    (c as u32) < 128
}

/// Every character is an ASCII code point.
pub open spec fn all_ascii(s: Seq<char>) -> bool {
    forall|i: int| 0 <= i < s.len() ==> is_ascii_char(#[trigger] s[i])
}

/// The lower-case image of `s` under full Unicode case mapping.
pub uninterp spec fn unicode_lower(s: Seq<char>) -> Seq<char>;

/// Relies on `str::to_lowercase`: determined by the characters alone;
/// on ASCII input it maps each upper-case letter to its lower case and
/// keeps every other character.
#[verifier::external_body]
pub(crate) fn lowercase(s: &str) -> (r: String)
    ensures
        r@ == unicode_lower(s@),
        all_ascii(s@) ==> r@ == ascii_lower(s@),
{
    s.to_lowercase()
}

/// The characters of `s`, in order.
pub fn str_to_chars(s: &str) -> (r: Vec<char>)
    ensures
        r@ == s@,
{
    let mut it = s.chars();
    let mut v: Vec<char> = Vec::new();
    loop
        invariant_except_break
            v@ + vstd::std_specs::iter::IteratorSpec::remaining(&it) == s@,
        ensures
            v@ == s@,
        decreases s@.len() - v@.len(),
    {
        let ghost prev = vstd::std_specs::iter::IteratorSpec::remaining(&it);
        match it.next() {
            Some(c) => {
                proof {
                    assert(prev == seq![prev[0]] + prev.drop_first());
                }
                v.push(c);
                proof {
                    assert(v@ + vstd::std_specs::iter::IteratorSpec::remaining(&it) == s@);
                }
            },
            None => {
                proof {
                    assert(v@ =~= s@);
                }
                break;
            },
        }
    }
    v
}

/// Relies on `core::iter::Iterator::collect` building a `String` from a
/// `char` iterator: the string holds exactly the slice's characters in order.
#[verifier::external_body]
pub(crate) fn chars_to_string(v: &Vec<char>) -> (r: String)
    ensures
        r@ == v@,
{
    v.iter().collect()
}

/// The characters of `v` from `a` (inclusive) to `b` (exclusive).
pub fn copy_range(v: &Vec<char>, a: usize, b: usize) -> (r: Vec<char>)
    requires
        a <= b <= v@.len(),
    ensures
        r@ == v@.subrange(a as int, b as int),
{
    let mut r: Vec<char> = Vec::new();
    let mut i: usize = a;
    while i < b
        invariant
            a <= i <= b <= v@.len(),
            r@ == v@.subrange(a as int, i as int),
        decreases b - i,
    {
        r.push(v[i]);
        proof {
            assert(r@ =~= v@.subrange(a as int, i + 1));
        }
        i = i + 1;
    }
    r
}

/// First index at or after `i` holding a non-white-space character, or
/// the length of `s` if every later character is white space.
pub open spec fn skip_ws_from(s: Seq<char>, i: int) -> int
    decreases s.len() - i,
{
    if i < 0 || i >= s.len() {
        s.len() as int
    } else if spec_is_ws(s[i]) {
        skip_ws_from(s, i + 1)
    } else {
        i
    }
}

/// First index at or after `i` holding white space, or the length of `s`.
pub open spec fn token_end_from(s: Seq<char>, i: int) -> int
    decreases s.len() - i,
{
    if i < 0 || i >= s.len() {
        s.len() as int
    } else if !spec_is_ws(s[i]) {
        token_end_from(s, i + 1)
    } else {
        i
    }
}

pub proof fn lemma_skip_ws_from_bounds(s: Seq<char>, i: int)
    requires
        0 <= i <= s.len(),
    ensures
        i <= skip_ws_from(s, i) <= s.len(),
        i <= token_end_from(s, i) <= s.len(),
    decreases s.len() - i,
{
    if i < s.len() {
        lemma_skip_ws_from_bounds(s, i + 1);
    }
}

/// First index at or after `i` holding `'\n'`, or the length of `s`.
pub open spec fn find_nl(s: Seq<char>, i: int) -> int
    decreases s.len() - i,
{
    if i < 0 || i >= s.len() {
        s.len() as int
    } else if s[i] == '\n' {
        i
    } else {
        find_nl(s, i + 1)
    }
}

pub proof fn lemma_find_nl_bounds(s: Seq<char>, i: int)
    requires
        0 <= i <= s.len(),
    ensures
        i <= find_nl(s, i) <= s.len(),
        forall|k: int| i <= k < find_nl(s, i) ==> s[k] != '\n',
        find_nl(s, i) < s.len() ==> s[find_nl(s, i)] == '\n',
    decreases s.len() - i,
{
    if i < s.len() && s[i] != '\n' {
        lemma_find_nl_bounds(s, i + 1);
    }
}

/// `l` with one trailing carriage return removed, as `str::lines` does
/// to each piece.
pub open spec fn strip_cr(l: Seq<char>) -> Seq<char> {
    if l.len() > 0 && l[l.len() - 1] == '\r' {
        l.drop_last()
    } else {
        l
    }
}

/// The lines of `s[c..]` under `str::lines`: pieces split on `'\n'`,
/// each stripped of one trailing `'\r'`; the piece after the last
/// newline appears only if it is non-empty.
pub open spec fn lines_from(s: Seq<char>, c: int) -> Seq<Seq<char>>
    decreases s.len() - c,
        via lines_from_dec
{
    if c < 0 || c >= s.len() {
        Seq::empty()
    } else {
        let k = find_nl(s, c);
        if k >= s.len() {
            seq![strip_cr(s.subrange(c, s.len() as int))]
        } else {
            seq![strip_cr(s.subrange(c, k))] + lines_from(s, k + 1)
        }
    }
}

#[via_fn]
proof fn lines_from_dec(s: Seq<char>, c: int) {
    if 0 <= c < s.len() {
        lemma_find_nl_bounds(s, c);
    }
}

/// The lines of `s`, as `str::lines` yields them.
pub open spec fn spec_lines(s: Seq<char>) -> Seq<Seq<char>> {
    lines_from(s, 0)
}

pub fn split_lines(v: &Vec<char>) -> (r: Vec<String>)
    ensures
        r.deep_view() == spec_lines(v@),
{
    let n = v.len();
    let mut r: Vec<String> = Vec::new();
    let mut c: usize = 0;
    proof {
        assert(r.deep_view() =~= Seq::<Seq<char>>::empty());
    }
    while c < n
        invariant
            c <= n == v@.len(),
            spec_lines(v@) == r.deep_view() + lines_from(v@, c as int),
        decreases n - c,
    {
        let ghost r0 = r.deep_view();
        let mut k: usize = c;
        while k < n && v[k] != '\n'
            invariant
                c <= k <= n == v@.len(),
                find_nl(v@, c as int) == find_nl(v@, k as int),
            decreases n - k,
        {
            k = k + 1;
        }
        proof {
            lemma_find_nl_bounds(v@, k as int);
            assert(find_nl(v@, c as int) == k as int);
        }
        let end = if k > c && v[k - 1] == '\r' {
            k - 1
        } else {
            k
        };
        let line = copy_range(v, c, end);
        proof {
            if k > c && v@[k - 1] == '\r' {
                assert(line@ =~= strip_cr(v@.subrange(c as int, k as int)));
            } else {
                assert(line@ == strip_cr(v@.subrange(c as int, k as int)));
            }
        }
        r.push(chars_to_string(&line));
        proof {
            assert(r.deep_view() =~= r0.push(line@));
        }
        if k < n {
            c = k + 1;
        } else {
            c = n;
        }
        proof {
            assert(spec_lines(v@) =~= r.deep_view() + lines_from(v@, c as int));
        }
    }
    proof {
        assert(spec_lines(v@) =~= r.deep_view());
    }
    r
}

/// The first white-space-delimited token of `s`: what
/// `split_whitespace().next()` yields, or the empty sequence if `s` is
/// empty or all white space.
pub open spec fn spec_first_token(s: Seq<char>) -> Seq<char> {
    let a = skip_ws_from(s, 0);
    let b = token_end_from(s, a);
    s.subrange(a, b)
}

pub fn first_token(s: &str) -> (r: String)
    ensures
        r@ == spec_first_token(s@),
{
    let v = str_to_chars(s);
    let n = v.len();
    let mut a: usize = 0;
    while a < n && is_ws(v[a])
        invariant
            0 <= a <= n == v@.len(),
            skip_ws_from(v@, 0) == skip_ws_from(v@, a as int),
        decreases n - a,
    {
        a = a + 1;
    }
    proof {
        lemma_skip_ws_from_bounds(v@, a as int);
        assert(skip_ws_from(v@, a as int) == a as int);
    }
    let mut b: usize = a;
    while b < n && !is_ws(v[b])
        invariant
            a <= b <= n == v@.len(),
            token_end_from(v@, a as int) == token_end_from(v@, b as int),
        decreases n - b,
    {
        b = b + 1;
    }
    proof {
        lemma_skip_ws_from_bounds(v@, b as int);
        assert(token_end_from(v@, b as int) == b as int);
    }
    let tok = copy_range(&v, a, b);
    chars_to_string(&tok)
}

} // verus!
