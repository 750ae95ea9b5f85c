//! Pins and pin sets.
//!
//! A pin is one SHA-256 digest written as exactly 64 hexadecimal characters;
//! its canonical form is upper-case with colon separators stripped.
//! Comparison is case-insensitive and colon-agnostic because every pin is
//! canonicalised before it enters a set and every fingerprint is produced in
//! canonical form. Texts of any other length are invalid and discarded.

use vstd::prelude::*;
use crate::text::{
    all_hex, eq_ignore_case_seq, is_hex_digit_char, lower_char, remove_colons, str_eq,
    strip_colons, to_upper_string, trim_chars, trim_spec, upper_char, upper_seq, is_hex_digit,
};

verus! {

/// A canonical pin: 64 upper-case hexadecimal characters.
pub open spec fn is_canon_pin(s: Seq<char>) -> bool {
    s.len() == 64 && all_hex(s) && upper_seq(s) == s
}

/// The canonical pin a text denotes: trimmed, colons stripped, upper-cased —
/// or `None` where what remains is not exactly 64 hex characters.
pub open spec fn canon_pin(line: Seq<char>) -> Option<Seq<char>> {
    let t = remove_colons(trim_spec(line));
    if t.len() == 64 && all_hex(t) {
        Some(upper_seq(t))
    } else {
        None
    }
}

/// Upper-casing keeps hex-digit-ness, in both directions.
proof fn lemma_all_hex_upper(s: Seq<char>)
    ensures
        all_hex(upper_seq(s)) == all_hex(s),
{
    assert(upper_seq(s).len() == s.len());
    if all_hex(s) {
        assert forall|k: int| 0 <= k < upper_seq(s).len() implies is_hex_digit_char(
            #[trigger] upper_seq(s)[k],
        ) by {
            assert(upper_seq(s)[k] == upper_char(s[k]));
        }
    }
    if all_hex(upper_seq(s)) {
        assert forall|k: int| 0 <= k < s.len() implies is_hex_digit_char(#[trigger] s[k]) by {
            assert(upper_seq(s)[k] == upper_char(s[k]));
        }
    }
}

/// What `canon_pin` yields is itself canonical.
pub proof fn lemma_canon_pin_is_canon(line: Seq<char>, p: Seq<char>)
    requires
        canon_pin(line) == Some(p),
    ensures
        is_canon_pin(p),
{
    let t = remove_colons(trim_spec(line));
    assert(p == upper_seq(t));
    lemma_all_hex_upper(t);
    assert forall|k: int| 0 <= k < upper_seq(p).len() implies #[trigger] upper_seq(p)[k] == p[k] by {
        assert(p[k] == upper_char(t[k]));
        assert(upper_seq(p)[k] == upper_char(upper_char(t[k])));
    }
    assert(upper_seq(p) =~= p);
}

/// Law: pin interpretation is case-insensitive and colon-agnostic. Two texts
/// whose trimmed, colon-stripped forms agree up to ASCII case denote the same
/// pin — and are equally invalid otherwise.
pub proof fn lemma_pin_case_colon_agnostic(a: Seq<char>, b: Seq<char>)
    requires
        eq_ignore_case_seq(remove_colons(trim_spec(a)), remove_colons(trim_spec(b))),
    ensures
        canon_pin(a) == canon_pin(b),
{
    let ta = remove_colons(trim_spec(a));
    let tb = remove_colons(trim_spec(b));
    lemma_lower_eq_upper_eq(ta, tb);
    assert(ta.len() == tb.len());
    lemma_all_hex_upper(ta);
    lemma_all_hex_upper(tb);
}

/// Sequences that agree after ASCII lower-casing agree after ASCII
/// upper-casing as well.
proof fn lemma_lower_eq_upper_eq(a: Seq<char>, b: Seq<char>)
    requires
        a.map_values(|c: char| lower_char(c)) == b.map_values(|c: char| lower_char(c)),
    ensures
        upper_seq(a) == upper_seq(b),
        a.len() == b.len(),
{
    assert(a.map_values(|c: char| lower_char(c)).len() == a.len());
    assert(b.map_values(|c: char| lower_char(c)).len() == b.len());
    assert forall|k: int| 0 <= k < a.len() implies #[trigger] upper_seq(a)[k] == upper_seq(
        b,
    )[k] by {
        assert(a.map_values(|c: char| lower_char(c))[k] == lower_char(a[k]));
        assert(b.map_values(|c: char| lower_char(c))[k] == lower_char(b[k]));
        assert(lower_char(a[k]) == lower_char(b[k]));
        assert(upper_char(a[k]) == upper_char(b[k]));
    }
    assert(upper_seq(a) =~= upper_seq(b));
}

/// The canonical pin a text denotes, or `None` where the text is not a
/// well-formed pin; verified against `canon_pin`.
pub fn normalize_pin(line: &str) -> (r: Option<String>)
    ensures
        match r {
            Some(s) => canon_pin(line@) == Some(s@),
            None => canon_pin(line@) is None,
        },
{
    let trimmed = trim_chars(line);
    let stripped = strip_colons(trimmed.as_str());
    let n = stripped.as_str().unicode_len();
    if n != 64 {
        return None;
    }
    let mut i: usize = 0;
    while i < n
        invariant
            0 <= i <= n,
            n == stripped@.len(),
            n == 64,
            stripped@ == remove_colons(trim_spec(line@)),
            forall|k: int| 0 <= k < i ==> is_hex_digit_char(#[trigger] stripped@[k]),
        decreases n - i,
    {
        if !is_hex_digit(stripped.as_str().get_char(i)) {
            return None;
        }
        i = i + 1;
    }
    Some(to_upper_string(stripped.as_str()))
}

/// A set of pins. Duplicates collapse and order is irrelevant: the view is a
/// `Set` of canonical pin texts.
#[derive(Debug)]
pub struct PinSet {
    items: Vec<String>,
}

impl PinSet {
    /// The pins the set holds.
    pub closed spec fn pins(&self) -> Set<Seq<char>> {
        Set::new(|p: Seq<char>| exists|i: int| 0 <= i < self.items@.len() && self.items@[i]@ == p)
    }

    /// Every stored text is a canonical pin and none repeats.
    pub closed spec fn wf(&self) -> bool {
        &&& forall|i: int| 0 <= i < self.items@.len() ==> is_canon_pin(#[trigger] self.items@[i]@)
        &&& forall|i: int, j: int|
            0 <= i < j < self.items@.len() ==> self.items@[i]@ != self.items@[j]@
    }

    /// The pin inserted first, while the set still kept it distinct from all
    /// later ones — what a caller reading one representative pin receives.
    pub closed spec fn first_pin(&self) -> Option<Seq<char>> {
        if self.items@.len() == 0 {
            None
        } else {
            Some(self.items@[0]@)
        }
    }

    /// Every member of a well-formed set is a canonical pin.
    pub proof fn lemma_members_canon(&self)
        requires
            self.wf(),
        ensures
            forall|p: Seq<char>| self.pins().contains(p) ==> is_canon_pin(p),
    {
    }

    pub fn new() -> (r: PinSet)
        ensures
            r.wf(),
            r.pins() =~= Set::<Seq<char>>::empty(),
            r.first_pin() is None,
    {
        PinSet { items: Vec::new() }
    }

    pub fn is_empty(&self) -> (r: bool)
        ensures
            r == self.pins().is_empty(),
    {
        if self.items.len() == 0 {
            proof {
                assert(self.pins() =~= Set::<Seq<char>>::empty());
            }
            true
        } else {
            proof {
                assert(self.pins().contains(self.items@[0]@));
            }
            false
        }
    }

    /// Whether the set holds this exact text as a pin.
    pub fn contains_exact(&self, p: &str) -> (r: bool)
        ensures
            r == self.pins().contains(p@),
    {
        let mut i: usize = 0;
        while i < self.items.len()
            invariant
                0 <= i <= self.items@.len(),
                forall|k: int| 0 <= k < i ==> self.items@[k]@ != p@,
            decreases self.items@.len() - i,
        {
            if str_eq(self.items[i].as_str(), p) {
                proof {
                    assert(self.pins().contains(p@));
                }
                return true;
            }
            i = i + 1;
        }
        false
    }

    /// Insert a text already in canonical form.
    pub fn insert_canon(&mut self, p: String)
        requires
            old(self).wf(),
            is_canon_pin(p@),
        ensures
            final(self).wf(),
            final(self).pins() =~= old(self).pins().insert(p@),
            final(self).first_pin() == (match old(self).first_pin() {
                Some(q) => Some(q),
                None => Some(p@),
            }),
    {
        if !self.contains_exact(p.as_str()) {
            let ghost before = self.items@;
            let ghost pv = p@;
            self.items.push(p);
            proof {
                assert forall|q: Seq<char>| self.pins().contains(q) implies old(
                    self,
                ).pins().insert(pv).contains(q) by {
                    let i = choose|i: int|
                        0 <= i < self.items@.len() && self.items@[i]@ == q;
                    if i < before.len() {
                        assert(before[i]@ == q);
                    }
                }
                assert forall|q: Seq<char>| old(self).pins().insert(pv).contains(q) implies
                    self.pins().contains(q) by {
                    if q == pv {
                        assert(self.items@[before.len() as int]@ == q);
                    } else {
                        let i = choose|i: int| 0 <= i < before.len() && before[i]@ == q;
                        assert(self.items@[i]@ == q);
                    }
                }
            }
        } else {
            proof {
                assert(old(self).pins().insert(p@) =~= old(self).pins());
                assert(old(self).items@.len() > 0);
            }
        }
    }

    /// Normalise a text and insert it if it is a well-formed pin; silently
    /// skip it otherwise.
    pub fn insert_normalized(&mut self, line: &str)
        requires
            old(self).wf(),
        ensures
            final(self).wf(),
            final(self).pins() =~= match canon_pin(line@) {
                Some(p) => old(self).pins().insert(p),
                None => old(self).pins(),
            },
            final(self).first_pin() == (match canon_pin(line@) {
                Some(p) => match old(self).first_pin() {
                    Some(q) => Some(q),
                    None => Some(p),
                },
                None => old(self).first_pin(),
            }),
    {
        match normalize_pin(line) {
            Some(p) => {
                proof {
                    lemma_canon_pin_is_canon(line@, p@);
                }
                self.insert_canon(p);
            },
            None => {},
        }
    }

    /// Add every pin of `other` to this set.
    pub fn merge_from(&mut self, other: &PinSet)
        requires
            old(self).wf(),
            other.wf(),
        ensures
            final(self).wf(),
            final(self).pins() =~= old(self).pins().union(other.pins()),
    {
        let mut i: usize = 0;
        while i < other.items.len()
            invariant
                self.wf(),
                other.wf(),
                0 <= i <= other.items@.len(),
                self.pins() =~= old(self).pins().union(
                    Set::new(
                        |p: Seq<char>|
                            exists|k: int| 0 <= k < i && other.items@[k]@ == p,
                    ),
                ),
            decreases other.items@.len() - i,
        {
            let p = other.items[i].clone();
            proof {
                assert(is_canon_pin(other.items@[i as int]@));
            }
            self.insert_canon(p);
            proof {
                assert(self.pins() =~= old(self).pins().union(
                    Set::new(
                        |q: Seq<char>|
                            exists|k: int| 0 <= k < i + 1 && other.items@[k]@ == q,
                    ),
                ));
            }
            i = i + 1;
        }
        proof {
            assert(Set::new(
                |p: Seq<char>|
                    exists|k: int| 0 <= k < other.items@.len() && other.items@[k]@ == p,
            ) =~= other.pins());
        }
    }

    /// The first pin in insertion order, if any.
    pub fn first(&self) -> (r: Option<&String>)
        ensures
            match r {
                Some(p) => self.pins().contains(p@) && self.first_pin() == Some(p@),
                None => self.pins().is_empty() && self.first_pin() is None,
            },
    {
        if self.items.len() == 0 {
            proof {
                assert(self.pins() =~= Set::<Seq<char>>::empty());
            }
            None
        } else {
            proof {
                assert(self.pins().contains(self.items@[0]@));
            }
            Some(&self.items[0])
        }
    }
}

} // verus!
