//! The runtime configuration pair and the page-URL shape check.
//!
//! A usable page URL is `http://` or `https://`, case-insensitively, then a
//! dotted host of label characters ending in an alphabetic top-level part of
//! at least two characters, then an optional `:port` of decimal digits and
//! an optional single-line `/path`. Reading configuration from the
//! environment, a storage file or a prompt is the caller's; the shape check
//! is verified here against `valid_http_url`.

use vstd::prelude::*;
use crate::store::{last_dot, lemma_last_dot_at, lemma_no_dot};
use crate::text::{eq_ignore_case, eq_ignore_case_seq, trim_chars, trim_spec};

verus! {

/// What the tool needs to run: the API key and the page to poll.
#[derive(Debug, Clone, PartialEq, Eq)]
pub struct Config {
    pub api_key: String,
    pub page_url: String,
}

pub open spec fn is_alpha_char(c: char) -> bool {
    ('a' <= c && c <= 'z') || ('A' <= c && c <= 'Z')
}

pub open spec fn is_digit_char(c: char) -> bool {
    '0' <= c && c <= '9'
}

/// A character allowed inside a host label: letters, digits, hyphen.
pub open spec fn is_label_char(c: char) -> bool {
    is_alpha_char(c) || is_digit_char(c) || c == '-'
}

/// Where the host part of `h` ends: at the first `:` or `/`, or at the end.
pub open spec fn host_end(h: Seq<char>) -> int
    decreases h.len(),
{
    if h.len() == 0 {
        0
    } else if h[0] == ':' || h[0] == '/' {
        0
    } else {
        1 + host_end(h.drop_first())
    }
}

proof fn lemma_host_end_at(h: Seq<char>, m: int)
    requires
        0 <= m <= h.len(),
        forall|k: int| 0 <= k < m ==> !(#[trigger] h[k] == ':' || h[k] == '/'),
        m == h.len() || h[m] == ':' || h[m] == '/',
    ensures
        host_end(h) == m,
    decreases m,
{
    if m > 0 {
        lemma_host_end_at(h.drop_first(), m - 1);
    }
}

/// Whether a host reads as one or more labels, each ending in a dot, then an
/// alphabetic top-level part of at least two characters.
pub open spec fn valid_host(host: Seq<char>) -> bool {
    let d = last_dot(host);
    &&& d >= 1
    &&& host[0] != '.'
    &&& forall|k: int| 0 <= k < d ==> (#[trigger] host[k] == '.' || is_label_char(host[k]))
    &&& forall|k: int| 1 <= k <= d ==> !(#[trigger] host[k] == '.' && host[k - 1] == '.')
    &&& host.len() >= d + 3
    &&& forall|k: int| d < k < host.len() ==> is_alpha_char(#[trigger] host[k])
}

/// Whether positions `e` and beyond of `rest` are `:` digits followed by an
/// optional single-line path — the candidate split for the port form.
pub open spec fn digits_then_path(rest: Seq<char>, e: int) -> bool {
    &&& 2 <= e <= rest.len()
    &&& forall|k: int| 1 <= k < e ==> is_digit_char(#[trigger] rest[k])
    &&& (e == rest.len() || (rest[e] == '/' && forall|k: int|
        e <= k < rest.len() ==> #[trigger] rest[k] != '\n'))
}

/// Whether what follows the host is empty, a single-line path, or a decimal
/// port then an optional single-line path; a newline fits nowhere in it.
pub open spec fn valid_after_host(rest: Seq<char>) -> bool {
    if rest.len() == 0 {
        true
    } else if rest[0] == '/' {
        forall|k: int| 0 <= k < rest.len() ==> #[trigger] rest[k] != '\n'
    } else if rest[0] == ':' {
        exists|e: int| digits_then_path(rest, e)
    } else {
        false
    }
}

/// Whether the part after the scheme is a valid host with a valid tail.
pub open spec fn valid_tail(h: Seq<char>) -> bool {
    valid_host(h.take(host_end(h))) && valid_after_host(h.skip(host_end(h)))
}

/// Whether a text is a well-shaped http or https URL with a dotted domain —
/// the page-URL shape the tool accepts. The scheme is matched
/// case-insensitively; the whole text is trimmed first.
pub open spec fn valid_http_url(input: Seq<char>) -> bool {
    let s = trim_spec(input);
    if s.len() >= 8 && eq_ignore_case_seq(s.take(8), "https://"@) {
        valid_tail(s.skip(8))
    } else if s.len() >= 7 && eq_ignore_case_seq(s.take(7), "http://"@) {
        valid_tail(s.skip(7))
    } else {
        false
    }
}

fn no_newline_from(s: &str, from: usize) -> (r: bool)
    requires
        from <= s@.len(),
    ensures
        r == forall|k: int| from <= k < s@.len() ==> #[trigger] s@[k] != '\n',
{
    let n = s.unicode_len();
    let mut k: usize = from;
    while k < n
        invariant
            from <= k <= n,
            n == s@.len(),
            forall|m: int| from <= m < k ==> #[trigger] s@[m] != '\n',
        decreases n - k,
    {
        if s.get_char(k) == '\n' {
            return false;
        }
        k = k + 1;
    }
    true
}

fn is_digit(c: char) -> (r: bool)
    ensures
        r == is_digit_char(c),
{
    '0' <= c && c <= '9'
}

fn is_alpha(c: char) -> (r: bool)
    ensures
        r == is_alpha_char(c),
{
    ('a' <= c && c <= 'z') || ('A' <= c && c <= 'Z')
}

fn is_label(c: char) -> (r: bool)
    ensures
        r == is_label_char(c),
{
    is_alpha(c) || is_digit(c) || c == '-'
}

fn valid_host_exec(host: &str) -> (r: bool)
    ensures
        r == valid_host(host@),
{
    let n = host.unicode_len();
    // find the last dot
    let mut k: usize = n;
    let mut found = false;
    while k > 0 && !found
        invariant
            0 <= k <= n,
            n == host@.len(),
            !found ==> forall|m: int| k <= m < n ==> host@[m] != '.',
            found ==> k < n && host@[k as int] == '.' && (forall|m: int|
                k < m < n ==> host@[m] != '.'),
        decreases k + (if found {
            0int
        } else {
            1int
        }),
    {
        if host.get_char(k - 1) == '.' {
            k = k - 1;
            found = true;
        } else {
            k = k - 1;
        }
    }
    proof {
        if found {
            lemma_last_dot_at(host@, k as int);
        } else {
            lemma_no_dot(host@);
        }
    }
    if !found || k == 0 {
        return false;
    }
    let d = k;
    if host.get_char(0) == '.' {
        return false;
    }
    if n - d < 3 {
        return false;
    }
    let mut i: usize = 0;
    while i < d
        invariant
            0 <= i <= d,
            d < n,
            n == host@.len(),
            d == last_dot(host@),
            forall|m: int| 0 <= m < i ==> (#[trigger] host@[m] == '.' || is_label_char(host@[m])),
        decreases d - i,
    {
        let c = host.get_char(i);
        if c != '.' && !is_label(c) {
            return false;
        }
        i = i + 1;
    }
    let mut i: usize = 1;
    while i <= d
        invariant
            1 <= i <= d + 1,
            d < n,
            n == host@.len(),
            d == last_dot(host@),
            forall|m: int|
                1 <= m < i ==> !(#[trigger] host@[m] == '.' && host@[m - 1] == '.'),
        decreases d + 1 - i,
    {
        if host.get_char(i) == '.' && host.get_char(i - 1) == '.' {
            return false;
        }
        i = i + 1;
    }
    let mut i: usize = d + 1;
    while i < n
        invariant
            d + 1 <= i <= n,
            n == host@.len(),
            d == last_dot(host@),
            forall|m: int| d < m < i ==> is_alpha_char(#[trigger] host@[m]),
        decreases n - i,
    {
        if !is_alpha(host.get_char(i)) {
            return false;
        }
        i = i + 1;
    }
    true
}

fn valid_after_host_exec(rest: &str) -> (r: bool)
    ensures
        r == valid_after_host(rest@),
{
    let n = rest.unicode_len();
    if n == 0 {
        return true;
    }
    let c0 = rest.get_char(0);
    if c0 == '/' {
        return no_newline_from(rest, 0);
    }
    if c0 != ':' {
        return false;
    }
    let mut e: usize = 1;
    while e < n && is_digit(rest.get_char(e))
        invariant
            1 <= e <= n,
            n == rest@.len(),
            forall|k: int| 1 <= k < e ==> is_digit_char(#[trigger] rest@[k]),
        decreases n - e,
    {
        e = e + 1;
    }
    // e is the end of the digit run: e == n or rest[e] is no digit
    if e < 2 {
        proof {
            assert forall|x: int| !digits_then_path(rest@, x) by {
                if 2 <= x <= rest@.len() {
                    assert(!is_digit_char(rest@[1]));
                }
            }
        }
        return false;
    }
    if e == n {
        proof {
            assert(digits_then_path(rest@, e as int));
        }
        return true;
    }
    if rest.get_char(e) == '/' {
        let ok = no_newline_from(rest, e);
        proof {
            if ok {
                assert(digits_then_path(rest@, e as int));
            } else {
                let w = choose|w: int| e <= w < rest@.len() && !(rest@[w] != '\n');
                assert forall|x: int| !digits_then_path(rest@, x) by {
                    if 2 <= x <= rest@.len() {
                        if x < e {
                            assert(is_digit_char(rest@[x]));
                        } else if x > e {
                            assert(!is_digit_char(rest@[e as int]));
                        } else {
                            assert(rest@[w] == '\n');
                        }
                    }
                }
            }
        }
        return ok;
    }
    proof {
        assert forall|x: int| !digits_then_path(rest@, x) by {
            if 2 <= x <= rest@.len() {
                if x < e {
                    assert(is_digit_char(rest@[x]));
                } else if x > e {
                    assert(!is_digit_char(rest@[e as int]));
                }
            }
        }
    }
    false
}

fn valid_tail_exec(h: &str) -> (r: bool)
    ensures
        r == valid_tail(h@),
{
    let n = h.unicode_len();
    let mut he: usize = 0;
    while he < n && !(h.get_char(he) == ':' || h.get_char(he) == '/')
        invariant
            0 <= he <= n,
            n == h@.len(),
            forall|k: int| 0 <= k < he ==> !(#[trigger] h@[k] == ':' || h@[k] == '/'),
        decreases n - he,
    {
        he = he + 1;
    }
    proof {
        lemma_host_end_at(h@, he as int);
    }
    let host = h.substring_char(0, he);
    proof {
        assert(host@ =~= h@.take(he as int));
    }
    if !valid_host_exec(host) {
        return false;
    }
    let rest = h.substring_char(he, n);
    proof {
        assert(rest@ =~= h@.skip(he as int));
    }
    valid_after_host_exec(rest)
}

/// Decide whether a text is an acceptable http/https page URL, verified
/// against `valid_http_url`.
pub fn is_valid_http_https_url(url: &str) -> (r: bool)
    ensures
        r == valid_http_url(url@),
{
    let s = trim_chars(url);
    let n = s.as_str().unicode_len();
    if n >= 8 && eq_ignore_case(s.as_str().substring_char(0, 8), "https://") {
        proof {
            assert(s@.take(8) =~= s@.subrange(0, 8));
        }
        let h = s.as_str().substring_char(8, n);
        proof {
            assert(h@ =~= s@.skip(8));
        }
        return valid_tail_exec(h);
    }
    if n >= 7 && eq_ignore_case(s.as_str().substring_char(0, 7), "http://") {
        proof {
            assert(s@.take(7) =~= s@.subrange(0, 7));
        }
        let h = s.as_str().substring_char(7, n);
        proof {
            assert(h@ =~= s@.skip(7));
        }
        return valid_tail_exec(h);
    }
    false
}

} // verus!
