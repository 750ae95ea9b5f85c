//! Extracting a page id from a page URL, and its hyphenated form.
//!
//! A page id is the last 32 hexadecimal characters found at the end of the
//! URL's final path segment (or of the whole trimmed input where it is not a
//! URL), written with hyphens in the 8-4-4-4-12 shape. URL parsing itself is
//! the outside crate's, behind a trusted wrapper; everything after is
//! verified.

use vstd::prelude::*;
use crate::text::{is_hex_digit, is_hex_digit_char, trim_chars, trim_spec};

verus! {

/// A character the trailing-id scan accepts: a hex digit or a hyphen.
pub open spec fn is_hexdash_char(c: char) -> bool {
    is_hex_digit_char(c) || c == '-'
}

/// The length of the longest suffix of `s` made of hex digits and hyphens.
pub open spec fn hexdash_suffix_len(s: Seq<char>) -> int
    decreases s.len(),
{
    if s.len() > 0 && is_hexdash_char(s.last()) {
        1 + hexdash_suffix_len(s.drop_last())
    } else {
        0
    }
}

proof fn lemma_hexdash_suffix(s: Seq<char>, i: int)
    requires
        0 <= i <= s.len(),
        forall|k: int| i <= k < s.len() ==> is_hexdash_char(#[trigger] s[k]),
        i == 0 || !is_hexdash_char(s[i - 1]),
    ensures
        hexdash_suffix_len(s) == s.len() - i,
    decreases s.len(),
{
    if i == s.len() {
        if s.len() > 0 {
            assert(!is_hexdash_char(s.last()));
        }
    } else {
        assert(is_hexdash_char(s.last()));
        lemma_hexdash_suffix(s.drop_last(), i);
    }
}

/// `s` with every hyphen removed.
pub open spec fn strip_dashes(s: Seq<char>) -> Seq<char>
    decreases s.len(),
{
    if s.len() == 0 {
        Seq::empty()
    } else if s[0] == '-' {
        strip_dashes(s.drop_first())
    } else {
        seq![s[0]] + strip_dashes(s.drop_first())
    }
}

proof fn lemma_strip_dashes_push(s: Seq<char>, c: char)
    ensures
        strip_dashes(s.push(c)) == strip_dashes(s) + (if c == '-' {
            Seq::<char>::empty()
        } else {
            seq![c]
        }),
    decreases s.len(),
{
    let tail = if c == '-' { Seq::<char>::empty() } else { seq![c] };
    if s.len() == 0 {
        assert(strip_dashes(Seq::<char>::empty()) == Seq::<char>::empty());
        assert(s.push(c).drop_first() =~= Seq::<char>::empty());
        assert(s.push(c)[0] == c);
        if c == '-' {
            assert(strip_dashes(s.push(c)) == strip_dashes(s.push(c).drop_first()));
            assert(strip_dashes(s) + tail =~= Seq::<char>::empty());
        } else {
            assert(strip_dashes(s.push(c)) == seq![c] + strip_dashes(s.push(c).drop_first()));
            assert(seq![c] + Seq::<char>::empty() =~= seq![c]);
            assert(strip_dashes(s) + tail =~= seq![c]);
        }
    } else {
        assert(s.push(c).drop_first() =~= s.drop_first().push(c));
        lemma_strip_dashes_push(s.drop_first(), c);
        if s[0] == '-' {
            assert(strip_dashes(s.push(c)) == strip_dashes(s.drop_first().push(c)));
        } else {
            assert(strip_dashes(s.push(c)) =~= seq![s[0]] + strip_dashes(s.drop_first().push(c)));
            assert(seq![s[0]] + (strip_dashes(s.drop_first()) + tail) =~= (seq![s[0]]
                + strip_dashes(s.drop_first())) + tail);
        }
    }
}

/// The hex digits of `s`, other characters dropped.
pub open spec fn keep_hex(s: Seq<char>) -> Seq<char>
    decreases s.len(),
{
    if s.len() == 0 {
        Seq::empty()
    } else if is_hex_digit_char(s[0]) {
        seq![s[0]] + keep_hex(s.drop_first())
    } else {
        keep_hex(s.drop_first())
    }
}

proof fn lemma_keep_hex_push(s: Seq<char>, c: char)
    ensures
        keep_hex(s.push(c)) == keep_hex(s) + (if is_hex_digit_char(c) {
            seq![c]
        } else {
            Seq::<char>::empty()
        }),
    decreases s.len(),
{
    let tail = if is_hex_digit_char(c) { seq![c] } else { Seq::<char>::empty() };
    if s.len() == 0 {
        assert(keep_hex(Seq::<char>::empty()) == Seq::<char>::empty());
        assert(s.push(c).drop_first() =~= Seq::<char>::empty());
        assert(s.push(c)[0] == c);
        if is_hex_digit_char(c) {
            assert(keep_hex(s.push(c)) == seq![c] + keep_hex(s.push(c).drop_first()));
            assert(seq![c] + Seq::<char>::empty() =~= seq![c]);
            assert(keep_hex(s) + tail =~= seq![c]);
        } else {
            assert(keep_hex(s.push(c)) == keep_hex(s.push(c).drop_first()));
            assert(keep_hex(s) + tail =~= Seq::<char>::empty());
        }
    } else {
        assert(s.push(c).drop_first() =~= s.drop_first().push(c));
        lemma_keep_hex_push(s.drop_first(), c);
        if is_hex_digit_char(s[0]) {
            assert(keep_hex(s.push(c)) =~= seq![s[0]] + keep_hex(s.drop_first().push(c)));
            assert(seq![s[0]] + (keep_hex(s.drop_first()) + tail) =~= (seq![s[0]] + keep_hex(
                s.drop_first(),
            )) + tail);
        } else {
            assert(keep_hex(s.push(c)) == keep_hex(s.drop_first().push(c)));
        }
    }
}

fn strip_dashes_exec(s: &str) -> (r: String)
    ensures
        r@ == strip_dashes(s@),
{
    let n = s.unicode_len();
    let mut out = String::new();
    let mut i: usize = 0;
    while i < n
        invariant
            0 <= i <= n,
            n == s@.len(),
            out@ == strip_dashes(s@.take(i as int)),
        decreases n - i,
    {
        let c = s.get_char(i);
        proof {
            assert(s@.take(i + 1 as int) =~= s@.take(i as int).push(s@[i as int]));
            lemma_strip_dashes_push(s@.take(i as int), s@[i as int]);
        }
        if c != '-' {
            out.push(c);
            proof {
                assert(strip_dashes(s@.take(i as int)).push(c) =~= strip_dashes(s@.take(i as int))
                    + seq![c]);
            }
        }
        i = i + 1;
    }
    proof {
        assert(s@.take(n as int) =~= s@);
    }
    out
}

fn keep_hex_exec(s: &str) -> (r: String)
    ensures
        r@ == keep_hex(s@),
{
    let n = s.unicode_len();
    let mut out = String::new();
    let mut i: usize = 0;
    while i < n
        invariant
            0 <= i <= n,
            n == s@.len(),
            out@ == keep_hex(s@.take(i as int)),
        decreases n - i,
    {
        let c = s.get_char(i);
        proof {
            assert(s@.take(i + 1 as int) =~= s@.take(i as int).push(s@[i as int]));
            lemma_keep_hex_push(s@.take(i as int), s@[i as int]);
        }
        if is_hex_digit(c) {
            out.push(c);
            proof {
                assert(keep_hex(s@.take(i as int)).push(c) =~= keep_hex(s@.take(i as int))
                    + seq![c]);
            }
        }
        i = i + 1;
    }
    proof {
        assert(s@.take(n as int) =~= s@);
    }
    out
}

/// A 32-character id in its hyphenated 8-4-4-4-12 shape.
pub open spec fn hyphenated(id: Seq<char>) -> Seq<char> {
    id.subrange(0, 8) + "-"@ + id.subrange(8, 12) + "-"@ + id.subrange(12, 16) + "-"@ + id.subrange(
        16,
        20,
    ) + "-"@ + id.subrange(20, 32)
}

/// Hyphenate the first 32 characters of an id, verified against
/// `hyphenated`; characters beyond the 32nd are ignored.
pub fn hyphenate_id(id32: &str) -> (r: String)
    requires
        id32@.len() >= 32,
    ensures
        r@ == hyphenated(id32@),
{
    let mut out = String::new();
    out.append(id32.substring_char(0, 8));
    out.append("-");
    out.append(id32.substring_char(8, 12));
    out.append("-");
    out.append(id32.substring_char(12, 16));
    out.append("-");
    out.append(id32.substring_char(16, 20));
    out.append("-");
    out.append(id32.substring_char(20, 32));
    proof {
        assert(out@ =~= hyphenated(id32@));
    }
    out
}

/// The last path segment of a URL, where the text parses as one. Its
/// pages-long definition (URL parsing and normalisation) lives in the
/// outside crate; contracts speak of it only through this name.
pub uninterp spec fn last_segment_of(s: Seq<char>) -> Option<Seq<char>>;

/// Relies on `url::Url::parse` and `Url::path_segments`: both depend on the
/// input text alone, and `parse` returns an error rather than panicking.
#[verifier::external_body]
fn url_last_segment(input: &str) -> (r: Option<String>)
    ensures
        match r {
            Some(seg) => last_segment_of(input@) == Some(seg@),
            None => last_segment_of(input@) is None,
        },
{
    match url::Url::parse(input) {
        Ok(u) => match u.path_segments() {
            Some(segs) => match segs.last() {
                Some(s) => Some(s.to_string()),
                None => None,
            },
            None => None,
        },
        Err(_) => None,
    }
}

/// The page id a page URL denotes: within the URL's last path segment (or
/// the whole trimmed input where it is not a URL), the trailing run of hex
/// digits and hyphens is preferred when it is 32 or more characters long,
/// hyphens dropped; otherwise every hex digit of the text is kept. The last
/// 32 hex characters of what remains, hyphenated, are the id; fewer than 32
/// means no id can be extracted.
pub open spec fn page_id_of(input: Seq<char>, seg: Option<Seq<char>>) -> Option<Seq<char>> {
    let s = match seg {
        Some(g) => g,
        None => trim_spec(input),
    };
    let m = hexdash_suffix_len(s);
    let raw = if m >= 32 {
        strip_dashes(s.subrange(s.len() - m, s.len() as int))
    } else {
        keep_hex(s)
    };
    if raw.len() < 32 {
        None
    } else {
        Some(hyphenated(raw.subrange(raw.len() - 32, raw.len() as int)))
    }
}

/// Extract the page id of a page URL, verified against `page_id_of` applied
/// to what the URL parser found.
pub fn extract_page_id(page_url: &str) -> (r: Option<String>)
    ensures
        match r {
            Some(id) => page_id_of(page_url@, last_segment_of(page_url@)) == Some(id@),
            None => page_id_of(page_url@, last_segment_of(page_url@)) is None,
        },
{
    let s: String = match url_last_segment(page_url) {
        Some(seg) => seg,
        None => trim_chars(page_url),
    };
    let n = s.as_str().unicode_len();
    let mut i: usize = n;
    while i > 0 && is_hexdash(s.as_str().get_char(i - 1))
        invariant
            0 <= i <= n,
            n == s@.len(),
            forall|k: int| i <= k < n ==> is_hexdash_char(#[trigger] s@[k]),
        decreases i,
    {
        i = i - 1;
    }
    proof {
        lemma_hexdash_suffix(s@, i as int);
    }
    let m = n - i;
    let raw: String = if m >= 32 {
        strip_dashes_exec(s.as_str().substring_char(i, n))
    } else {
        keep_hex_exec(s.as_str())
    };
    let rn = raw.as_str().unicode_len();
    if rn < 32 {
        return None;
    }
    let id32 = raw.as_str().substring_char(rn - 32, rn);
    Some(hyphenate_id(id32))
}

fn is_hexdash(c: char) -> (r: bool)
    ensures
        r == is_hexdash_char(c),
{
    is_hex_digit(c) || c == '-'
}

} // verus!
