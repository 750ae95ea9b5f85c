//! The pin store: expected pin sets from a declarative manifest and legacy
//! flat pin files, and the persisted trust record.
//!
//! Everything here works on file *contents* and file *names* handed in as
//! plain values; reading directories and writing files is the caller's.
//! Manifest and trust-record JSON is parsed by the outside parser (see
//! `json`); every pin that enters a set is re-validated and canonicalised by
//! verified code, and the trust-record text the engine persists is built and
//! specified here exactly.

use vstd::prelude::*;
use crate::errors::VerifyError;
use crate::json::{
    json_parse, json_parses, json_string_array, json_string_array_of, json_string_field,
    json_string_field_of,
};
use crate::pins::{canon_pin, is_canon_pin, PinSet};
use crate::text::{
    contains_seq, contains_str, lower_seq, starts_with_seq, starts_with_str, str_eq,
    to_lower_string,
};

verus! {

// ---------------------------------------------------------------------------
// Flat pin files: one hex digest per line, lenient.
// ---------------------------------------------------------------------------

/// Whether position `i` starts a line of `s`.
pub open spec fn line_start(s: Seq<char>, i: int) -> bool {
    i == 0 || s[i - 1] == '\n'
}

/// Whether position `j` ends a line of `s` (a newline or the end of text).
pub open spec fn line_break(s: Seq<char>, j: int) -> bool {
    j == s.len() || s[j] == '\n'
}

/// Whether `[i, j)` spans exactly one line of `s`.
pub open spec fn is_line_range(s: Seq<char>, i: int, j: int) -> bool {
    0 <= i <= j <= s.len() && line_start(s, i) && line_break(s, j) && (forall|k: int|
        i <= k < j ==> s[k] != '\n')
}

/// The well-formed pins among the lines of a flat pin file; all other lines
/// are silently skipped.
pub open spec fn flat_pin_set(s: Seq<char>) -> Set<Seq<char>> {
    Set::new(
        |p: Seq<char>|
            exists|i: int, j: int| is_line_range(s, i, j) && canon_pin(s.subrange(i, j)) == Some(p),
    )
}

/// The pins of the lines that end strictly before `bound`.
spec fn flat_pins_upto(s: Seq<char>, bound: int) -> Set<Seq<char>> {
    Set::new(
        |p: Seq<char>|
            exists|i: int, j: int|
                is_line_range(s, i, j) && j < bound && canon_pin(s.subrange(i, j)) == Some(p),
    )
}

/// Two line ranges with the same end have the same start.
proof fn lemma_line_range_unique(s: Seq<char>, i1: int, i2: int, j: int)
    requires
        is_line_range(s, i1, j),
        is_line_range(s, i2, j),
    ensures
        i1 == i2,
{
    if i1 < i2 {
        assert(s[i2 - 1] == '\n');
        assert(i1 <= i2 - 1 < j);
    }
    if i2 < i1 {
        assert(s[i1 - 1] == '\n');
        assert(i2 <= i1 - 1 < j);
    }
}

/// Parse the lines of a flat pin file into `set`: every line that is a
/// well-formed pin (64 hex characters once trimmed and colon-stripped) is
/// canonicalised and added; other lines are skipped.
pub fn add_flat_pin_lines(set: &mut PinSet, content: &str)
    requires
        old(set).wf(),
    ensures
        final(set).wf(),
        final(set).pins() =~= old(set).pins().union(flat_pin_set(content@)),
{
    let n = content.unicode_len();
    let mut pos: usize = 0;
    let mut start: usize = 0;
    while pos < n
        invariant
            set.wf(),
            0 <= start <= pos <= n,
            n == content@.len(),
            line_start(content@, start as int),
            forall|k: int| start <= k < pos ==> content@[k] != '\n',
            set.pins() =~= old(set).pins().union(flat_pins_upto(content@, pos as int)),
        decreases n - pos,
    {
        let c = content.get_char(pos);
        if c == '\n' {
            let piece = content.substring_char(start, pos);
            let ghost before = set.pins();
            set.insert_normalized(piece);
            proof {
                let s = content@;
                assert(is_line_range(s, start as int, pos as int));
                assert forall|q: Seq<char>| set.pins().contains(q) implies old(
                    set,
                ).pins().union(flat_pins_upto(s, pos + 1)).contains(q) by {
                    if before.contains(q) {
                        // already covered: lines ending before pos also end before pos + 1
                    } else {
                        assert(canon_pin(s.subrange(start as int, pos as int)) == Some(q));
                    }
                }
                assert forall|q: Seq<char>|
                    old(set).pins().union(flat_pins_upto(s, pos + 1)).contains(q) implies
                    set.pins().contains(q) by {
                    if flat_pins_upto(s, pos + 1).contains(q) {
                        let (i, j) = choose|i: int, j: int|
                            is_line_range(s, i, j) && j < pos + 1 && canon_pin(s.subrange(i, j))
                                == Some(q);
                        if j == pos {
                            lemma_line_range_unique(s, i, start as int, j);
                            assert(canon_pin(s.subrange(start as int, pos as int)) == Some(q));
                        } else {
                            assert(flat_pins_upto(s, pos as int).contains(q));
                        }
                    }
                }
            }
            start = pos + 1;
        }
        pos = pos + 1;
        proof {
            if content@[pos - 1] != '\n' {
                assert forall|q: Seq<char>| flat_pins_upto(content@, pos as int).contains(
                    q,
                ) implies flat_pins_upto(content@, pos - 1).contains(q) by {
                    let (i, j) = choose|i: int, j: int|
                        is_line_range(content@, i, j) && j < pos && canon_pin(
                            content@.subrange(i, j),
                        ) == Some(q);
                    assert(j != pos - 1);
                }
                assert(flat_pins_upto(content@, pos as int) =~= flat_pins_upto(
                    content@,
                    pos - 1,
                ));
            }
        }
    }
    // the final line, ending at the end of the text
    let piece = content.substring_char(start, n);
    let ghost before = set.pins();
    set.insert_normalized(piece);
    proof {
        let s = content@;
        assert(is_line_range(s, start as int, n as int));
        assert forall|q: Seq<char>| set.pins().contains(q) implies old(set).pins().union(
            flat_pin_set(s),
        ).contains(q) by {
            if !before.contains(q) {
                assert(canon_pin(s.subrange(start as int, n as int)) == Some(q));
            }
        }
        assert forall|q: Seq<char>| old(set).pins().union(flat_pin_set(s)).contains(q) implies
            set.pins().contains(q) by {
            if flat_pin_set(s).contains(q) {
                let (i, j) = choose|i: int, j: int|
                    is_line_range(s, i, j) && canon_pin(s.subrange(i, j)) == Some(q);
                if j == n {
                    lemma_line_range_unique(s, i, start as int, j);
                    assert(canon_pin(s.subrange(start as int, n as int)) == Some(q));
                } else {
                    assert(flat_pins_upto(s, n as int).contains(q));
                }
            }
        }
    }
}

// ---------------------------------------------------------------------------
// File-name classification for the legacy directory scan.
// ---------------------------------------------------------------------------

/// What role a file of the pin directory plays.
#[derive(Debug, Clone, Copy, PartialEq, Eq, Structural)]
pub enum FlatFileRole {
    /// A leaf pin source: one hex digest per line.
    Leaf,
    /// A CA pin source, signalled by a `ca_` prefix or a `.ca.` infix in the
    /// lower-cased name.
    Ca,
    /// Not a pin source: the manifest itself, or an extension outside
    /// `txt`/`pin`/`sha256`.
    Ignored,
}

/// The position of the last `.` of `s`, or `-1` where there is none.
pub open spec fn last_dot(s: Seq<char>) -> int
    decreases s.len(),
{
    if s.len() == 0 {
        -1
    } else if s.last() == '.' {
        s.len() - 1
    } else {
        last_dot(s.drop_last())
    }
}

/// The extension of a file name: the part after the last `.`, absent where
/// no `.` exists or the name starts with its only `.`.
pub open spec fn ext_of(name: Seq<char>) -> Option<Seq<char>> {
    if last_dot(name) <= 0 {
        None
    } else {
        Some(name.subrange(last_dot(name) + 1, name.len() as int))
    }
}

/// Whether a file name signals a CA pin source.
pub open spec fn ca_named(name: Seq<char>) -> bool {
    starts_with_seq(lower_seq(name), "ca_"@) || contains_seq(lower_seq(name), ".ca."@)
}

/// The classification rule: the manifest name is never a flat source; a
/// CA-indicating name populates the CA sets rather than the leaf set; of the
/// rest, a file with no extension or a `txt`/`pin`/`sha256` extension is a
/// leaf source.
pub open spec fn classify_spec(name: Seq<char>) -> FlatFileRole {
    if lower_seq(name) == "notion-api.verify"@ {
        FlatFileRole::Ignored
    } else if ca_named(name) {
        FlatFileRole::Ca
    } else {
        match ext_of(name) {
            None => FlatFileRole::Leaf,
            Some(e) => {
                if e == "txt"@ || e == "pin"@ || e == "sha256"@ {
                    FlatFileRole::Leaf
                } else {
                    FlatFileRole::Ignored
                }
            },
        }
    }
}

pub(crate) proof fn lemma_last_dot_at(s: Seq<char>, k: int)
    requires
        0 <= k < s.len(),
        s[k] == '.',
        forall|m: int| k < m < s.len() ==> s[m] != '.',
    ensures
        last_dot(s) == k,
    decreases s.len(),
{
    if k == s.len() - 1 {
    } else {
        assert(s.last() != '.');
        lemma_last_dot_at(s.drop_last(), k);
    }
}

pub(crate) proof fn lemma_no_dot(s: Seq<char>)
    requires
        forall|m: int| 0 <= m < s.len() ==> s[m] != '.',
    ensures
        last_dot(s) == -1,
    decreases s.len(),
{
    if s.len() > 0 {
        lemma_no_dot(s.drop_last());
    }
}

/// Classify one file name, verified against `classify_spec`.
pub fn classify_pin_file(name: &str) -> (r: FlatFileRole)
    ensures
        r == classify_spec(name@),
{
    let lowered = to_lower_string(name);
    if str_eq(lowered.as_str(), "notion-api.verify") {
        return FlatFileRole::Ignored;
    }
    if starts_with_str(lowered.as_str(), "ca_") || contains_str(lowered.as_str(), ".ca.") {
        return FlatFileRole::Ca;
    }
    // find the last dot
    let n = name.unicode_len();
    let mut k: usize = n;
    let mut found = false;
    while k > 0 && !found
        invariant
            0 <= k <= n,
            n == name@.len(),
            !found ==> forall|m: int| k <= m < n ==> name@[m] != '.',
            found ==> k < n && name@[k as int] == '.' && (forall|m: int|
                k < m < n ==> name@[m] != '.'),
        decreases k + (if found { 0int } else { 1int }),
    {
        if name.get_char(k - 1) == '.' {
            k = k - 1;
            found = true;
        } else {
            k = k - 1;
        }
    }
    proof {
        if found {
            lemma_last_dot_at(name@, k as int);
        } else {
            lemma_no_dot(name@);
        }
    }
    if !found || k == 0 {
        return FlatFileRole::Leaf;
    }
    let ext = name.substring_char(k + 1, n);
    if str_eq(ext, "txt") || str_eq(ext, "pin") || str_eq(ext, "sha256") {
        FlatFileRole::Leaf
    } else {
        FlatFileRole::Ignored
    }
}

// ---------------------------------------------------------------------------
// The manifest: a JSON object with three optional pin arrays.
// ---------------------------------------------------------------------------

/// The three named pin sets of a manifest file.
#[derive(Debug)]
pub struct ManifestSets {
    /// End-entity certificate pins.
    pub leaf: PinSet,
    /// Issuer certificate DER-hash pins.
    pub ca_der: PinSet,
    /// Issuer certificate public-key pins.
    pub ca_spki: PinSet,
}

/// The well-formed pins among a sequence of pin texts, canonicalised,
/// duplicates collapsed.
pub open spec fn pins_of_texts(texts: Seq<Seq<char>>) -> Set<Seq<char>> {
    Set::new(
        |p: Seq<char>| exists|i: int| 0 <= i < texts.len() && canon_pin(texts[i]) == Some(p),
    )
}

spec fn pins_of_texts_upto(texts: Seq<Seq<char>>, bound: int) -> Set<Seq<char>> {
    Set::new(|p: Seq<char>| exists|i: int| 0 <= i < bound && canon_pin(texts[i]) == Some(p))
}

/// The first text that is a well-formed pin, canonicalised.
pub open spec fn first_pin_of(texts: Seq<Seq<char>>) -> Option<Seq<char>>
    decreases texts.len(),
{
    if texts.len() == 0 {
        None
    } else {
        match canon_pin(texts[0]) {
            Some(p) => Some(p),
            None => first_pin_of(texts.drop_first()),
        }
    }
}

proof fn lemma_first_pin_of_push(texts: Seq<Seq<char>>, t: Seq<char>)
    ensures
        first_pin_of(texts.push(t)) == (match first_pin_of(texts) {
            Some(p) => Some(p),
            None => canon_pin(t),
        }),
    decreases texts.len(),
{
    if texts.len() == 0 {
        assert(texts.push(t)[0] == t);
        assert(texts.push(t).drop_first() =~= Seq::<Seq<char>>::empty());
        assert(first_pin_of(Seq::<Seq<char>>::empty()) is None);
        assert(first_pin_of(texts) is None);
    } else {
        assert(texts.push(t)[0] == texts[0]);
        assert(texts.push(t).drop_first() =~= texts.drop_first().push(t));
        lemma_first_pin_of_push(texts.drop_first(), t);
    }
}

/// The pins of a manifest's string array under `key`: the entries that
/// normalise, canonicalised, duplicates collapsed.
pub open spec fn manifest_pins(text: Seq<char>, key: Seq<char>) -> Set<Seq<char>> {
    pins_of_texts(json_string_array_of(text, key))
}

/// Law: two entries of one manifest array that agree up to ASCII case and
/// colon separators denote the same pin, so they contribute one set member
/// between them — case and colons never distinguish pins through the loader.
pub proof fn lemma_manifest_entries_case_colon_agnostic(
    text: Seq<char>,
    key: Seq<char>,
    i: int,
    j: int,
)
    requires
        0 <= i < json_string_array_of(text, key).len(),
        0 <= j < json_string_array_of(text, key).len(),
        crate::text::eq_ignore_case_seq(
            crate::text::remove_colons(crate::text::trim_spec(json_string_array_of(text, key)[i])),
            crate::text::remove_colons(crate::text::trim_spec(json_string_array_of(text, key)[j])),
        ),
    ensures
        canon_pin(json_string_array_of(text, key)[i]) == canon_pin(
            json_string_array_of(text, key)[j],
        ),
        canon_pin(json_string_array_of(text, key)[i]) matches Some(p) ==> manifest_pins(
            text,
            key,
        ).contains(p),
{
    crate::pins::lemma_pin_case_colon_agnostic(
        json_string_array_of(text, key)[i],
        json_string_array_of(text, key)[j],
    );
}

/// Add the well-formed pins among `texts` to `set`, in order; other entries
/// contribute nothing.
fn add_pin_texts(set: &mut PinSet, texts: &Vec<String>)
    requires
        old(set).wf(),
    ensures
        final(set).wf(),
        final(set).pins() =~= old(set).pins().union(
            pins_of_texts(texts@.map_values(|s: String| s@)),
        ),
        final(set).first_pin() == (match old(set).first_pin() {
            Some(q) => Some(q),
            None => first_pin_of(texts@.map_values(|s: String| s@)),
        }),
{
    let ghost tv = texts@.map_values(|s: String| s@);
    let mut i: usize = 0;
    while i < texts.len()
        invariant
            set.wf(),
            0 <= i <= texts@.len(),
            tv == texts@.map_values(|s: String| s@),
            set.pins() =~= old(set).pins().union(pins_of_texts_upto(tv, i as int)),
            set.first_pin() == (match old(set).first_pin() {
                Some(q) => Some(q),
                None => first_pin_of(tv.take(i as int)),
            }),
        decreases texts@.len() - i,
    {
        let ghost before = set.pins();
        let ghost before_first = set.first_pin();
        set.insert_normalized(texts[i].as_str());
        proof {
            assert(tv[i as int] == texts@[i as int]@);
            assert(tv.take(i + 1 as int) =~= tv.take(i as int).push(tv[i as int]));
            lemma_first_pin_of_push(tv.take(i as int), tv[i as int]);
            assert forall|q: Seq<char>| set.pins().contains(q) implies old(set).pins().union(
                pins_of_texts_upto(tv, i + 1),
            ).contains(q) by {
                if !before.contains(q) {
                    assert(canon_pin(tv[i as int]) == Some(q));
                }
            }
            assert forall|q: Seq<char>|
                old(set).pins().union(pins_of_texts_upto(tv, i + 1)).contains(q) implies
                set.pins().contains(q) by {
                if pins_of_texts_upto(tv, i + 1).contains(q) {
                    let k = choose|k: int| 0 <= k < i + 1 && canon_pin(tv[k]) == Some(q);
                    if k < i {
                        assert(pins_of_texts_upto(tv, i as int).contains(q));
                    }
                }
            }
        }
        i = i + 1;
    }
    proof {
        assert(pins_of_texts_upto(tv, texts@.len() as int) =~= pins_of_texts(tv));
        assert(tv.take(texts@.len() as int) =~= tv);
    }
}

/// Load the manifest's three pin sets from its JSON text: each set holds
/// exactly the canonical forms of the entries of the corresponding string
/// array that normalise to 64-hex pins, and remembers the first of them.
/// Malformed JSON is a `ManifestParseError`.
pub fn load_verify_format(text: &str) -> (r: Result<ManifestSets, VerifyError>)
    ensures
        match r {
            Ok(m) => {
                &&& json_parses(text@)
                &&& m.leaf.wf() && m.ca_der.wf() && m.ca_spki.wf()
                &&& m.leaf.pins() =~= manifest_pins(text@, "leaf_sha256"@)
                &&& m.ca_der.pins() =~= manifest_pins(text@, "ca_der_sha256"@)
                &&& m.ca_spki.pins() =~= manifest_pins(text@, "ca_spki_sha256"@)
                &&& m.leaf.first_pin() == first_pin_of(
                    json_string_array_of(text@, "leaf_sha256"@),
                )
                &&& m.ca_der.first_pin() == first_pin_of(
                    json_string_array_of(text@, "ca_der_sha256"@),
                )
                &&& m.ca_spki.first_pin() == first_pin_of(
                    json_string_array_of(text@, "ca_spki_sha256"@),
                )
            },
            Err(e) => e == VerifyError::ManifestParseError && !json_parses(text@),
        },
{
    match json_parse(text) {
        Ok(_) => {},
        Err(_) => {
            return Err(VerifyError::ManifestParseError);
        },
    }
    let mut leaf = PinSet::new();
    let mut ca_der = PinSet::new();
    let mut ca_spki = PinSet::new();
    let leaf_texts = json_string_array(text, "leaf_sha256");
    let ca_der_texts = json_string_array(text, "ca_der_sha256");
    let ca_spki_texts = json_string_array(text, "ca_spki_sha256");
    add_pin_texts(&mut leaf, &leaf_texts);
    add_pin_texts(&mut ca_der, &ca_der_texts);
    add_pin_texts(&mut ca_spki, &ca_spki_texts);
    Ok(ManifestSets { leaf, ca_der, ca_spki })
}

// ---------------------------------------------------------------------------
// The expected pin sets: manifest plus qualifying flat files.
// ---------------------------------------------------------------------------

/// The union of the flat pins of every file whose name classifies as `role`.
pub open spec fn flat_union_for(files: Seq<(String, String)>, role: FlatFileRole) -> Set<
    Seq<char>,
> {
    Set::new(
        |p: Seq<char>|
            exists|i: int|
                0 <= i < files.len() && classify_spec(files[i].0@) == role && flat_pin_set(
                    files[i].1@,
                ).contains(p),
    )
}

spec fn flat_union_upto(files: Seq<(String, String)>, role: FlatFileRole, bound: int) -> Set<
    Seq<char>,
> {
    Set::new(
        |p: Seq<char>|
            exists|i: int|
                0 <= i < bound && classify_spec(files[i].0@) == role && flat_pin_set(
                    files[i].1@,
                ).contains(p),
    )
}

/// Add the flat pins of every file of the given role. `files` pairs each
/// file's name with its content.
fn add_flat_files(set: &mut PinSet, files: &Vec<(String, String)>, role: FlatFileRole)
    requires
        old(set).wf(),
        role != FlatFileRole::Ignored,
    ensures
        final(set).wf(),
        final(set).pins() =~= old(set).pins().union(flat_union_for(files@, role)),
{
    let mut i: usize = 0;
    while i < files.len()
        invariant
            set.wf(),
            0 <= i <= files@.len(),
            role != FlatFileRole::Ignored,
            set.pins() =~= old(set).pins().union(flat_union_upto(files@, role, i as int)),
        decreases files@.len() - i,
    {
        let r = classify_pin_file(files[i].0.as_str());
        if (matches!(role, FlatFileRole::Leaf) && matches!(r, FlatFileRole::Leaf)) || (matches!(
            role,
            FlatFileRole::Ca,
        ) && matches!(r, FlatFileRole::Ca)) {
            add_flat_pin_lines(set, files[i].1.as_str());
        }
        proof {
            let fs = files@;
            assert forall|p: Seq<char>| flat_union_upto(fs, role, i + 1).contains(p) implies
                set.pins().contains(p) by {
                let k = choose|k: int|
                    0 <= k < i + 1 && classify_spec(fs[k].0@) == role && flat_pin_set(
                        fs[k].1@,
                    ).contains(p);
                if k < i {
                    assert(flat_union_upto(fs, role, i as int).contains(p));
                }
            }
            assert forall|p: Seq<char>| set.pins().contains(p) implies old(set).pins().union(
                flat_union_upto(fs, role, i + 1),
            ).contains(p) by {
                if !old(set).pins().contains(p) && !flat_union_upto(fs, role, i as int).contains(
                    p,
                ) {
                    assert(flat_pin_set(fs[i as int].1@).contains(p));
                }
            }
        }
        i = i + 1;
    }
}

/// `loadExpectedLeafPins`: the expected leaf pin set — exactly the
/// manifest's `leaf_sha256` pins, if a manifest text is present, together
/// with the pins of every leaf-classified flat file. Absence of pins is not
/// an error; a manifest that does not parse is.
pub fn load_expected_pins(manifest_text: Option<&str>, files: &Vec<(String, String)>) -> (r:
    Result<PinSet, VerifyError>)
    ensures
        match r {
            Ok(set) => {
                &&& set.wf()
                &&& match manifest_text {
                    Some(t) => json_parses(t@) && set.pins() =~= manifest_pins(
                        t@,
                        "leaf_sha256"@,
                    ).union(flat_union_for(files@, FlatFileRole::Leaf)),
                    None => set.pins() =~= flat_union_for(files@, FlatFileRole::Leaf),
                }
            },
            Err(e) => {
                &&& e == VerifyError::ManifestParseError
                &&& manifest_text matches Some(t) && !json_parses(t@)
            },
        },
{
    let mut set: PinSet;
    match manifest_text {
        Some(t) => {
            match load_verify_format(t) {
                Ok(m) => {
                    set = m.leaf;
                },
                Err(e) => {
                    return Err(e);
                },
            }
        },
        None => {
            set = PinSet::new();
        },
    }
    add_flat_files(&mut set, files, FlatFileRole::Leaf);
    Ok(set)
}

/// `loadExpectedCaPins`: the expected CA pin set — exactly the manifest's
/// `ca_der_sha256` and `ca_spki_sha256` pins merged into one set (matching
/// checks both digest kinds uniformly), together with the pins of every
/// CA-classified flat file.
pub fn load_expected_ca_pins(manifest_text: Option<&str>, files: &Vec<(String, String)>) -> (r:
    Result<PinSet, VerifyError>)
    ensures
        match r {
            Ok(set) => {
                &&& set.wf()
                &&& match manifest_text {
                    Some(t) => json_parses(t@) && set.pins() =~= manifest_pins(
                        t@,
                        "ca_der_sha256"@,
                    ).union(manifest_pins(t@, "ca_spki_sha256"@)).union(
                        flat_union_for(files@, FlatFileRole::Ca),
                    ),
                    None => set.pins() =~= flat_union_for(files@, FlatFileRole::Ca),
                }
            },
            Err(e) => {
                &&& e == VerifyError::ManifestParseError
                &&& manifest_text matches Some(t) && !json_parses(t@)
            },
        },
{
    let mut set: PinSet;
    match manifest_text {
        Some(t) => {
            match load_verify_format(t) {
                Ok(m) => {
                    set = m.ca_der;
                    set.merge_from(&m.ca_spki);
                },
                Err(e) => {
                    return Err(e);
                },
            }
        },
        None => {
            set = PinSet::new();
        },
    }
    add_flat_files(&mut set, files, FlatFileRole::Ca);
    Ok(set)
}

// ---------------------------------------------------------------------------
// The persisted trust record.
// ---------------------------------------------------------------------------

/// The persisted trust record: the host it vouches for, the issuer
/// fingerprints the operator accepted, when it was stored, and a free-form
/// note.
#[derive(Debug, Clone)]
pub struct TrustRecord {
    pub host: String,
    /// SHA-256 of the trusted issuer certificate's DER encoding.
    pub der_sha256: Option<String>,
    /// SHA-256 of its SPKI encoding, where the certificate parsed.
    pub spki_sha256: Option<String>,
    /// An RFC 3339 timestamp.
    pub stored_at: String,
    pub note: String,
}

impl TrustRecord {
    /// Any fingerprint the record holds is a canonical pin.
    pub open spec fn wf(&self) -> bool {
        &&& match self.der_sha256 {
            Some(p) => is_canon_pin(p@),
            None => true,
        }
        &&& match self.spki_sha256 {
            Some(p) => is_canon_pin(p@),
            None => true,
        }
    }
}

/// How one character is written inside a JSON string literal: quote and
/// backslash are escaped, control characters take the `\u00XX` form, and
/// everything else stands for itself.
pub open spec fn escape_char(c: char) -> Seq<char> {
    if c == '"' {
        seq!['\\', '"']
    } else if c == '\\' {
        seq!['\\', '\\']
    } else if (c as u32) < 32 {
        seq!['\\', 'u', '0', '0', crate::fingerprint::hex_digit((c as u8) / 16), crate::fingerprint::hex_digit((c as u8) % 16)]
    } else {
        seq![c]
    }
}

/// A text escaped for use inside a JSON string literal.
pub open spec fn json_escape(s: Seq<char>) -> Seq<char>
    decreases s.len(),
{
    if s.len() == 0 {
        Seq::empty()
    } else {
        escape_char(s[0]) + json_escape(s.drop_first())
    }
}

proof fn lemma_json_escape_push(s: Seq<char>, c: char)
    ensures
        json_escape(s.push(c)) == json_escape(s) + escape_char(c),
    decreases s.len(),
{
    if s.len() == 0 {
        assert(s.push(c).drop_first() =~= Seq::<char>::empty());
        assert(s.push(c)[0] == c);
        assert(json_escape(Seq::<char>::empty()) == Seq::<char>::empty());
        assert(escape_char(c) + Seq::<char>::empty() =~= escape_char(c));
        assert(json_escape(s) + escape_char(c) =~= escape_char(c));
    } else {
        assert(s.push(c).drop_first() =~= s.drop_first().push(c));
        lemma_json_escape_push(s.drop_first(), c);
        assert(s.push(c)[0] == s[0]);
        assert(escape_char(s[0]) + (json_escape(s.drop_first()) + escape_char(c)) =~= (escape_char(
            s[0],
        ) + json_escape(s.drop_first())) + escape_char(c));
    }
}

/// Escape a text for use inside a JSON string literal, verified against
/// `json_escape`.
fn escape_json_str(s: &str) -> (r: String)
    ensures
        r@ == json_escape(s@),
{
    let n = s.unicode_len();
    let mut out = String::new();
    let mut i: usize = 0;
    while i < n
        invariant
            0 <= i <= n,
            n == s@.len(),
            out@ == json_escape(s@.take(i as int)),
        decreases n - i,
    {
        let c = s.get_char(i);
        proof {
            assert(s@.take(i + 1 as int) =~= s@.take(i as int).push(s@[i as int]));
            lemma_json_escape_push(s@.take(i as int), s@[i as int]);
        }
        if c == '"' {
            out.push('\\');
            out.push('"');
            proof {
                assert(json_escape(s@.take(i as int)).push('\\').push('"') =~= json_escape(
                    s@.take(i as int),
                ) + escape_char(c));
            }
        } else if c == '\\' {
            out.push('\\');
            out.push('\\');
            proof {
                assert(json_escape(s@.take(i as int)).push('\\').push('\\') =~= json_escape(
                    s@.take(i as int),
                ) + escape_char(c));
            }
        } else if (c as u32) < 32 {
            let code = c as u8;
            out.push('\\');
            out.push('u');
            out.push('0');
            out.push('0');
            out.push(crate::fingerprint::hex_digit_exec(code / 16));
            out.push(crate::fingerprint::hex_digit_exec(code % 16));
            proof {
                assert(json_escape(s@.take(i as int)).push('\\').push('u').push('0').push(
                    '0',
                ).push(crate::fingerprint::hex_digit((c as u8) / 16)).push(
                    crate::fingerprint::hex_digit((c as u8) % 16),
                ) =~= json_escape(s@.take(i as int)) + escape_char(c));
            }
        } else {
            out.push(c);
            proof {
                assert(json_escape(s@.take(i as int)).push(c) =~= json_escape(s@.take(i as int))
                    + escape_char(c));
            }
        }
        i = i + 1;
    }
    proof {
        assert(s@.take(n as int) =~= s@);
    }
    out
}

/// One `"key": "value"` line of the record, indented two spaces, with the
/// value escaped.
pub open spec fn json_field(key: Seq<char>, value: Seq<char>) -> Seq<char> {
    "\n  \""@ + key + "\": \""@ + json_escape(value) + "\""@
}

/// The exact pretty JSON text the engine persists for a trust record: one
/// flat object, keys in sorted order, absent fingerprints omitted.
pub open spec fn trust_json_text(rec: TrustRecord) -> Seq<char> {
    "{"@ + (match rec.der_sha256 {
        Some(d) => json_field("der_sha256"@, d@) + ","@,
        None => Seq::<char>::empty(),
    }) + json_field("host"@, rec.host@) + ","@ + json_field("note"@, rec.note@) + ","@ + (
    match rec.spki_sha256 {
        Some(p) => json_field("spki_sha256"@, p@) + ","@,
        None => Seq::<char>::empty(),
    }) + json_field("stored_at"@, rec.stored_at@) + "\n}"@
}

fn append_field(out: &mut String, key: &str, value: &str)
    ensures
        final(out)@ == old(out)@ + json_field(key@, value@),
{
    out.append("\n  \"");
    out.append(key);
    out.append("\": \"");
    let escaped = escape_json_str(value);
    out.append(escaped.as_str());
    out.append("\"");
    proof {
        assert(old(out)@ + "\n  \""@ + key@ + "\": \""@ + json_escape(value@) + "\""@ =~= old(
            out,
        )@ + ("\n  \""@ + key@ + "\": \""@ + json_escape(value@) + "\""@));
    }
}

/// `persistTrustRecord`'s text: build the exact JSON the engine writes for a
/// record, verified against `trust_json_text`. The caller writes it to the
/// trust file, overwriting any prior record.
pub fn trust_record_json(rec: &TrustRecord) -> (r: String)
    ensures
        r@ == trust_json_text(*rec),
{
    let mut out = String::new();
    out.append("{");
    match &rec.der_sha256 {
        Some(d) => {
            append_field(&mut out, "der_sha256", d.as_str());
            out.append(",");
        },
        None => {},
    }
    append_field(&mut out, "host", rec.host.as_str());
    out.append(",");
    append_field(&mut out, "note", rec.note.as_str());
    out.append(",");
    match &rec.spki_sha256 {
        Some(p) => {
            append_field(&mut out, "spki_sha256", p.as_str());
            out.append(",");
        },
        None => {},
    }
    append_field(&mut out, "stored_at", rec.stored_at.as_str());
    out.append("\n}");
    proof {
        assert(out@ =~= trust_json_text(*rec));
    }
    out
}

/// Escaping leaves a canonical pin alone: hex digits need no JSON escapes.
proof fn lemma_escape_canon_pin(s: Seq<char>)
    requires
        forall|k: int| 0 <= k < s.len() ==> crate::text::is_hex_digit_char(#[trigger] s[k]),
    ensures
        json_escape(s) == s,
    decreases s.len(),
{
    if s.len() == 0 {
        assert(json_escape(s) =~= s);
    } else {
        assert(crate::text::is_hex_digit_char(s[0]));
        assert(escape_char(s[0]) == seq![s[0]]);
        lemma_escape_canon_pin(s.drop_first());
        assert(json_escape(s) =~= seq![s[0]] + s.drop_first());
        assert(seq![s[0]] + s.drop_first() =~= s);
    }
}

/// A middle segment of a concatenation occurs in the whole.
proof fn lemma_contains_middle(a: Seq<char>, b: Seq<char>, c: Seq<char>)
    ensures
        contains_seq(a + b + c, b),
{
    let whole = a + b + c;
    assert(whole.subrange(a.len() as int, a.len() + b.len() as int) =~= b);
    assert(crate::text::matches_at(whole, b, a.len() as int));
}

#[verifier::rlimit(100)]
proof fn lemma_trust_json_carries_der(rec: TrustRecord)
    requires
        rec.wf(),
        rec.der_sha256 is Some,
    ensures
        contains_seq(trust_json_text(rec), rec.der_sha256->Some_0@),
{
    let spki_part = match rec.spki_sha256 {
        Some(p) => json_field("spki_sha256"@, p@) + ","@,
        None => Seq::<char>::empty(),
    };
    let mid = json_field("host"@, rec.host@) + ","@ + json_field("note"@, rec.note@) + ","@;
    let d = rec.der_sha256->Some_0;
    lemma_escape_canon_pin(d@);
    let prefix = "{"@ + "\n  \""@ + "der_sha256"@ + "\": \""@;
    let suffix = "\""@ + ","@ + mid + spki_part + json_field("stored_at"@, rec.stored_at@)
        + "\n}"@;
    lemma_contains_middle(prefix, d@, suffix);
    assert(prefix + d@ + suffix =~= trust_json_text(rec));
}

#[verifier::rlimit(100)]
proof fn lemma_trust_json_carries_spki(rec: TrustRecord)
    requires
        rec.wf(),
        rec.spki_sha256 is Some,
    ensures
        contains_seq(trust_json_text(rec), rec.spki_sha256->Some_0@),
{
    let der_part = match rec.der_sha256 {
        Some(d) => json_field("der_sha256"@, d@) + ","@,
        None => Seq::<char>::empty(),
    };
    let mid = json_field("host"@, rec.host@) + ","@ + json_field("note"@, rec.note@) + ","@;
    let p = rec.spki_sha256->Some_0;
    lemma_escape_canon_pin(p@);
    let prefix = "{"@ + der_part + mid + "\n  \""@ + "spki_sha256"@ + "\": \""@;
    let suffix = "\""@ + ","@ + json_field("stored_at"@, rec.stored_at@) + "\n}"@;
    lemma_contains_middle(prefix, p@, suffix);
    assert(prefix + p@ + suffix =~= trust_json_text(rec));
}

/// Law: the persisted trust-record text carries the record's fingerprints
/// verbatim, so a reload of the pin store can find them. (That the reload
/// does recover them crosses the outside JSON parser and is checked by test.)
pub proof fn lemma_trust_json_carries_pins(rec: TrustRecord)
    requires
        rec.wf(),
    ensures
        rec.der_sha256 matches Some(d) ==> contains_seq(trust_json_text(rec), d@),
        rec.spki_sha256 matches Some(p) ==> contains_seq(trust_json_text(rec), p@),
{
    if rec.der_sha256 is Some {
        lemma_trust_json_carries_der(rec);
    }
    if rec.spki_sha256 is Some {
        lemma_trust_json_carries_spki(rec);
    }
}

// ---------------------------------------------------------------------------
// Loading the trust record's pins, and the bootstrap convenience.
// ---------------------------------------------------------------------------

/// The string field under `key`, or empty where it is absent or no string.
pub open spec fn str_field_or_empty(t: Seq<char>, key: Seq<char>) -> Seq<char> {
    match json_string_field_of(t, key) {
        Some(s) => s,
        None => Seq::empty(),
    }
}

/// The canonical pin the string field under `key` denotes, if the field is
/// present and normalises.
pub open spec fn trust_field_pin(t: Seq<char>, key: Seq<char>) -> Option<Seq<char>> {
    match json_string_field_of(t, key) {
        Some(s) => canon_pin(s),
        None => None,
    }
}

/// The CA pins a persisted trust record's text contributes: the canonical
/// forms of its `der_sha256` and `spki_sha256` fields, where they normalise.
pub open spec fn trust_pin_set(t: Seq<char>) -> Set<Seq<char>> {
    Set::new(
        |p: Seq<char>|
            trust_field_pin(t, "spki_sha256"@) == Some(p) || trust_field_pin(t, "der_sha256"@)
                == Some(p),
    )
}

/// The view of an optional owned pin.
pub open spec fn opt_view(o: Option<String>) -> Option<Seq<char>> {
    match o {
        Some(s) => Some(s@),
        None => None,
    }
}

/// The string field under `key` of a JSON text, empty where absent.
fn str_field(text: &str, key: &str) -> (r: String)
    ensures
        r@ == str_field_or_empty(text@, key@),
{
    match json_string_field(text, key) {
        Some(s) => s,
        None => String::new(),
    }
}

/// The canonical pin of the string field under `key`, where it normalises.
fn pin_field(text: &str, key: &str) -> (r: Option<String>)
    ensures
        opt_view(r) == trust_field_pin(text@, key@),
        r matches Some(p) ==> is_canon_pin(p@),
{
    let field = match json_string_field(text, key) {
        Some(s) => s,
        None => {
            return None;
        },
    };
    let normalized = crate::pins::normalize_pin(field.as_str());
    proof {
        match &normalized {
            Some(p) => crate::pins::lemma_canon_pin_is_canon(field@, p@),
            None => {},
        }
    }
    normalized
}

/// The CA pins of a persisted trust record's JSON text: exactly the
/// canonical forms of its `der_sha256` and `spki_sha256` string fields that
/// normalise to well-formed pins. `None` content (no trust file) yields the
/// empty set; text that is not valid JSON is a `ManifestParseError`.
pub fn load_ca_json_pins(content: Option<&str>) -> (r: Result<PinSet, VerifyError>)
    ensures
        match r {
            Ok(set) => {
                &&& set.wf()
                &&& (content is None ==> set.pins() =~= Set::<Seq<char>>::empty())
                &&& (content matches Some(t) ==> json_parses(t@) && set.pins() =~= trust_pin_set(
                    t@,
                ))
            },
            Err(e) => {
                &&& e == VerifyError::ManifestParseError
                &&& content matches Some(t) && !json_parses(t@)
            },
        },
{
    let mut set = PinSet::new();
    let text = match content {
        Some(t) => t,
        None => {
            return Ok(set);
        },
    };
    match json_parse(text) {
        Ok(_) => {},
        Err(_) => {
            return Err(VerifyError::ManifestParseError);
        },
    }
    match json_string_field(text, "spki_sha256") {
        Some(s) => {
            set.insert_normalized(s.as_str());
        },
        None => {},
    }
    match json_string_field(text, "der_sha256") {
        Some(s) => {
            set.insert_normalized(s.as_str());
        },
        None => {},
    }
    proof {
        assert(set.pins() =~= trust_pin_set(text@));
    }
    Ok(set)
}

/// Load the persisted trust record itself from the trust file's content:
/// `None` where there is no file, the record otherwise — each fingerprint
/// the canonical form of its field where that normalises to a well-formed
/// pin, the other fields the content's string fields as they stand (absent
/// ones empty). Text that is not valid JSON is a `ManifestParseError`.
pub fn load_trust_record(content: Option<&str>) -> (r: Result<
    Option<TrustRecord>,
    VerifyError,
>)
    ensures
        match r {
            Ok(rec) => {
                &&& (content is None <==> rec is None)
                &&& (content matches Some(t) ==> json_parses(t@))
                &&& match rec {
                    Some(rec) => {
                        &&& rec.wf()
                        &&& content matches Some(t) && rec.host@ == str_field_or_empty(
                            t@,
                            "host"@,
                        ) && rec.note@ == str_field_or_empty(t@, "note"@) && rec.stored_at@
                            == str_field_or_empty(t@, "stored_at"@) && opt_view(rec.der_sha256)
                            == trust_field_pin(t@, "der_sha256"@) && opt_view(rec.spki_sha256)
                            == trust_field_pin(t@, "spki_sha256"@)
                    },
                    None => true,
                }
            },
            Err(e) => {
                &&& e == VerifyError::ManifestParseError
                &&& content matches Some(t) && !json_parses(t@)
            },
        },
{
    let text = match content {
        Some(t) => t,
        None => {
            return Ok(None);
        },
    };
    match json_parse(text) {
        Ok(_) => {},
        Err(_) => {
            return Err(VerifyError::ManifestParseError);
        },
    }
    let host = str_field(text, "host");
    let note = str_field(text, "note");
    let stored_at = str_field(text, "stored_at");
    let der = pin_field(text, "der_sha256");
    let spki = pin_field(text, "spki_sha256");
    Ok(Some(TrustRecord { host, der_sha256: der, spki_sha256: spki, stored_at, note }))
}

/// `trustRecordExists`: whether the trust file's content holds at least one
/// usable CA pin — exactly when the content is present, parses as JSON, and
/// one of its two fingerprint fields normalises to a pin. Used to decide
/// whether to offer CA-pinning mode at all; a missing or malformed file
/// counts as "no".
pub fn saved_ca_pins_exist(content: Option<&str>) -> (r: bool)
    ensures
        r == (content matches Some(t) && json_parses(t@) && !trust_pin_set(t@).is_empty()),
{
    match load_ca_json_pins(content) {
        Ok(set) => !set.is_empty(),
        Err(_) => false,
    }
}

/// The fingerprints an opportunistic bootstrap would persist.
pub struct BootstrapPins {
    /// The first available CA DER pin.
    pub der_sha256: Option<String>,
    /// The first available CA SPKI pin.
    pub spki_sha256: Option<String>,
}

fn first_cloned(set: &PinSet) -> (r: Option<String>)
    requires
        set.wf(),
    ensures
        opt_view(r) == set.first_pin(),
        match r {
            Some(p) => set.pins().contains(p@) && is_canon_pin(p@),
            None => set.pins().is_empty(),
        },
{
    match set.first() {
        Some(p) => {
            let ghost pv = p@;
            proof {
                set.lemma_members_canon();
                assert(is_canon_pin(pv));
            }
            Some(p.clone())
        },
        None => None,
    }
}

/// `bootstrapFromManifest`'s decision: derive a trust record's fingerprints
/// from the manifest's CA arrays — the first entry of each that normalises —
/// or, where the manifest offers none, the first pin of the CA-classified
/// flat files (stored as a DER pin, lacking format hints). `None` means
/// nothing to bootstrap from; every failure is swallowed here by design, so
/// a manifest that does not parse also yields `None`.
pub fn bootstrap_candidate(manifest_text: Option<&str>, files: &Vec<(String, String)>) -> (r:
    Option<BootstrapPins>)
    ensures
        match r {
            Some(b) => {
                &&& (match b.der_sha256 {
                    Some(p) => is_canon_pin(p@),
                    None => true,
                })
                &&& (match b.spki_sha256 {
                    Some(p) => is_canon_pin(p@),
                    None => true,
                })
                &&& !(b.der_sha256 is None && b.spki_sha256 is None)
                &&& (match manifest_text {
                    Some(t) => {
                        &&& json_parses(t@)
                        &&& if !manifest_pins(t@, "ca_der_sha256"@).is_empty() || !manifest_pins(
                            t@,
                            "ca_spki_sha256"@,
                        ).is_empty() {
                            opt_view(b.der_sha256) == first_pin_of(
                                json_string_array_of(t@, "ca_der_sha256"@),
                            ) && opt_view(b.spki_sha256) == first_pin_of(
                                json_string_array_of(t@, "ca_spki_sha256"@),
                            )
                        } else {
                            (match b.der_sha256 {
                                Some(p) => flat_union_for(files@, FlatFileRole::Ca).contains(p@),
                                None => flat_union_for(files@, FlatFileRole::Ca).is_empty(),
                            }) && b.spki_sha256 is None
                        }
                    },
                    None => (match b.der_sha256 {
                        Some(p) => flat_union_for(files@, FlatFileRole::Ca).contains(p@),
                        None => flat_union_for(files@, FlatFileRole::Ca).is_empty(),
                    }) && b.spki_sha256 is None,
                })
            },
            None => match manifest_text {
                Some(t) => !json_parses(t@) || (manifest_pins(t@, "ca_der_sha256"@).is_empty()
                    && manifest_pins(t@, "ca_spki_sha256"@).is_empty() && flat_union_for(
                    files@,
                    FlatFileRole::Ca,
                ).is_empty()),
                None => flat_union_for(files@, FlatFileRole::Ca).is_empty(),
            },
        },
{
    let mut ca_der = PinSet::new();
    let mut ca_spki = PinSet::new();
    match manifest_text {
        Some(t) => {
            match load_verify_format(t) {
                Ok(m) => {
                    ca_der = m.ca_der;
                    ca_spki = m.ca_spki;
                },
                Err(_) => {
                    return None;
                },
            }
        },
        None => {},
    }
    if ca_der.is_empty() && ca_spki.is_empty() {
        // no format hints in flat files: store what they hold as DER pins
        add_flat_files(&mut ca_der, files, FlatFileRole::Ca);
    }
    let der = first_cloned(&ca_der);
    let spki = first_cloned(&ca_spki);
    if matches!(der, None) && matches!(spki, None) {
        return None;
    }
    Some(BootstrapPins { der_sha256: der, spki_sha256: spki })
}

} // verus!
