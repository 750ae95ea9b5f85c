//! Fingerprint calculation: SHA-256 digests over a certificate's DER encoding
//! and over its Subject-Public-Key-Info (SPKI) encoding, rendered as
//! upper-case hexadecimal.
//!
//! The digest itself and the extraction of the SPKI field come from outside
//! crates behind trusted wrappers; the hex rendering and everything built on
//! it is verified.

use vstd::prelude::*;
use sha2::{Digest, Sha256};
use x509_parser::prelude::{FromDer, X509Certificate};
use crate::text::is_hex_digit_char;
use crate::text::upper_char;

verus! {

/// The upper-case hexadecimal digit for a value below 16.
pub open spec fn hex_digit(n: u8) -> char {
    if n == 0 {
        '0'
    } else if n == 1 {
        '1'
    } else if n == 2 {
        '2'
    } else if n == 3 {
        '3'
    } else if n == 4 {
        '4'
    } else if n == 5 {
        '5'
    } else if n == 6 {
        '6'
    } else if n == 7 {
        '7'
    } else if n == 8 {
        '8'
    } else if n == 9 {
        '9'
    } else if n == 10 {
        'A'
    } else if n == 11 {
        'B'
    } else if n == 12 {
        'C'
    } else if n == 13 {
        'D'
    } else if n == 14 {
        'E'
    } else {
        'F'
    }
}

pub(crate) fn hex_digit_exec(n: u8) -> (c: char)
    requires
        n < 16,
    ensures
        c == hex_digit(n),
{
    if n == 0 {
        '0'
    } else if n == 1 {
        '1'
    } else if n == 2 {
        '2'
    } else if n == 3 {
        '3'
    } else if n == 4 {
        '4'
    } else if n == 5 {
        '5'
    } else if n == 6 {
        '6'
    } else if n == 7 {
        '7'
    } else if n == 8 {
        '8'
    } else if n == 9 {
        '9'
    } else if n == 10 {
        'A'
    } else if n == 11 {
        'B'
    } else if n == 12 {
        'C'
    } else if n == 13 {
        'D'
    } else if n == 14 {
        'E'
    } else {
        'F'
    }
}

/// The two upper-case hex characters of one byte, high nibble first.
pub open spec fn hex_pair(b: u8) -> Seq<char> {
    seq![hex_digit(b / 16), hex_digit(b % 16)]
}

/// The upper-case hexadecimal rendering of a byte sequence.
pub open spec fn hex_of_bytes(bs: Seq<u8>) -> Seq<char>
    decreases bs.len(),
{
    if bs.len() == 0 {
        Seq::empty()
    } else {
        hex_pair(bs[0]) + hex_of_bytes(bs.drop_first())
    }
}

proof fn lemma_hex_of_bytes_push(bs: Seq<u8>, b: u8)
    ensures
        hex_of_bytes(bs.push(b)) == hex_of_bytes(bs) + hex_pair(b),
    decreases bs.len(),
{
    if bs.len() == 0 {
        assert(bs.push(b).drop_first() =~= Seq::<u8>::empty());
        assert(bs.push(b)[0] == b);
        assert(hex_of_bytes(Seq::<u8>::empty()) == Seq::<char>::empty());
        assert(hex_pair(b) + Seq::<char>::empty() =~= hex_pair(b));
        assert(hex_of_bytes(bs) + hex_pair(b) =~= hex_pair(b));
    } else {
        assert(bs.push(b).drop_first() =~= bs.drop_first().push(b));
        lemma_hex_of_bytes_push(bs.drop_first(), b);
        assert(bs.push(b)[0] == bs[0]);
        assert(hex_pair(bs[0]) + (hex_of_bytes(bs.drop_first()) + hex_pair(b)) =~= (hex_pair(bs[0])
            + hex_of_bytes(bs.drop_first())) + hex_pair(b));
    }
}

/// The length of the hex rendering is twice the byte count.
pub proof fn lemma_hex_of_bytes_len(bs: Seq<u8>)
    ensures
        hex_of_bytes(bs).len() == 2 * bs.len(),
    decreases bs.len(),
{
    if bs.len() > 0 {
        lemma_hex_of_bytes_len(bs.drop_first());
    }
}

/// Every character of a hex rendering is an upper-case hex digit.
pub proof fn lemma_hex_of_bytes_chars(bs: Seq<u8>)
    ensures
        forall|k: int|
            0 <= k < hex_of_bytes(bs).len() ==> (#[trigger] is_hex_digit_char(hex_of_bytes(bs)[k])
                && upper_char(hex_of_bytes(bs)[k]) == hex_of_bytes(bs)[k]),
    decreases bs.len(),
{
    if bs.len() > 0 {
        lemma_hex_of_bytes_chars(bs.drop_first());
        assert forall|k: int| 0 <= k < hex_of_bytes(bs).len() implies (#[trigger] is_hex_digit_char(
            hex_of_bytes(bs)[k],
        ) && upper_char(hex_of_bytes(bs)[k]) == hex_of_bytes(bs)[k]) by {
            if k >= 2 {
                assert(hex_of_bytes(bs)[k] == hex_of_bytes(bs.drop_first())[k - 2]);
            }
        }
    }
}

/// Upper-case hexadecimal encoding of a byte slice, verified against
/// `hex_of_bytes`.
pub fn hex_upper(bytes: &[u8]) -> (r: String)
    ensures
        r@ == hex_of_bytes(bytes@),
{
    let n = bytes.len();
    let mut out = String::new();
    let mut i: usize = 0;
    while i < n
        invariant
            0 <= i <= n,
            n == bytes@.len(),
            out@ == hex_of_bytes(bytes@.take(i as int)),
        decreases n - i,
    {
        let b = bytes[i];
        out.push(hex_digit_exec(b / 16));
        out.push(hex_digit_exec(b % 16));
        proof {
            assert(bytes@.take(i + 1 as int) =~= bytes@.take(i as int).push(bytes@[i as int]));
            lemma_hex_of_bytes_push(bytes@.take(i as int), bytes@[i as int]);
            assert(hex_of_bytes(bytes@.take(i as int)).push(hex_digit(b / 16)).push(
                hex_digit(b % 16),
            ) =~= hex_of_bytes(bytes@.take(i as int)) + hex_pair(b));
        }
        i = i + 1;
    }
    proof {
        assert(bytes@.take(n as int) =~= bytes@);
    }
    out
}

/// The SHA-256 digest of a byte sequence. Its pages-long definition lives in
/// the outside crate; contracts speak of it only through this name.
pub uninterp spec fn sha256_of(data: Seq<u8>) -> Seq<u8>;

/// Relies on `sha2::Sha256` (the `Digest::digest` entry point): the digest is
/// a function of the input bytes alone and is always 32 bytes long.
#[verifier::external_body]
fn sha256_digest(data: &[u8]) -> (r: Vec<u8>)
    ensures
        r@ == sha256_of(data@),
        r@.len() == 32,
{
    Sha256::digest(data).to_vec()
}

/// The DER encoding of the Subject-Public-Key-Info field of a certificate,
/// or `None` where the bytes do not parse as an X.509 certificate. Defined by
/// the outside parser; contracts speak of it only through this name.
pub uninterp spec fn spki_of(der: Seq<u8>) -> Option<Seq<u8>>;

/// Relies on `x509_parser::certificate::X509Certificate::from_der` and the
/// raw DER form its `subject_pki` field exposes: both depend on the input
/// bytes alone.
#[verifier::external_body]
fn extract_spki(der: &[u8]) -> (r: Option<Vec<u8>>)
    ensures
        match r {
            Some(v) => spki_of(der@) == Some(v@),
            None => spki_of(der@) is None,
        },
{
    match X509Certificate::from_der(der) {
        Ok((_, cert)) => Some(cert.tbs_certificate.subject_pki.raw.to_vec()),
        Err(_) => None,
    }
}

/// The upper-case hex SHA-256 fingerprint of a certificate's full DER bytes.
pub open spec fn der_fingerprint(der: Seq<u8>) -> Seq<char> {
    hex_of_bytes(sha256_of(der))
}

/// The upper-case hex SHA-256 fingerprint of a certificate's SPKI field, if
/// the certificate parses.
pub open spec fn spki_fingerprint(der: Seq<u8>) -> Option<Seq<char>> {
    match spki_of(der) {
        Some(spki) => Some(hex_of_bytes(sha256_of(spki))),
        None => None,
    }
}

/// The hex rendering of a 32-byte digest is a canonical pin: 64 upper-case
/// hex characters, unchanged by trimming, colon-stripping or upper-casing.
pub proof fn lemma_digest_hex_canon(bs: Seq<u8>)
    requires
        bs.len() == 32,
    ensures
        crate::pins::is_canon_pin(hex_of_bytes(bs)),
{
    lemma_hex_of_bytes_len(bs);
    lemma_hex_of_bytes_chars(bs);
    let h = hex_of_bytes(bs);
    assert forall|k: int| 0 <= k < crate::text::upper_seq(h).len() implies
        #[trigger] crate::text::upper_seq(h)[k] == h[k] by {
        assert(is_hex_digit_char(hex_of_bytes(bs)[k]) && upper_char(hex_of_bytes(bs)[k])
            == hex_of_bytes(bs)[k]);
        assert(crate::text::upper_seq(h)[k] == upper_char(h[k]));
    }
    assert(crate::text::upper_seq(h) =~= h);
}

/// `sha256Hex(der)`: the upper-case hex SHA-256 digest of the certificate's
/// full DER encoding, always a canonical pin.
pub fn cert_der_sha256_hex(der: &[u8]) -> (r: String)
    ensures
        r@ == der_fingerprint(der@),
        crate::pins::is_canon_pin(r@),
{
    let digest = sha256_digest(der);
    proof {
        lemma_digest_hex_canon(sha256_of(der@));
    }
    hex_upper(digest.as_slice())
}

/// `sha256Hex(spki)`: the upper-case hex SHA-256 digest of the certificate's
/// Subject-Public-Key-Info encoding. Bytes that do not parse as an X.509
/// certificate signal `CertificateParseError`, exactly.
pub fn spki_sha256_hex(der: &[u8]) -> (r: Result<String, crate::errors::VerifyError>)
    ensures
        match r {
            Ok(h) => spki_fingerprint(der@) == Some(h@) && crate::pins::is_canon_pin(h@),
            Err(e) => e == crate::errors::VerifyError::CertificateParseError && spki_fingerprint(
                der@,
            ) is None,
        },
{
    match extract_spki(der) {
        Some(spki) => {
            let digest = sha256_digest(spki.as_slice());
            proof {
                lemma_digest_hex_canon(sha256_of(spki@));
            }
            Ok(hex_upper(digest.as_slice()))
        },
        None => Err(crate::errors::VerifyError::CertificateParseError),
    }
}

} // verus!
