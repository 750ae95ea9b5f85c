//! The trust-decision rules: leaf pin matching, the CA pin gate, the DNS
//! consensus signal and the operator-approved trust-on-first-use fallback.
//!
//! These functions take the peer certificate chain and the loaded pin sets as
//! plain values and decide; the caller performs the handshake, the DNS
//! queries, the prompt and the file writes they call for.
//!
//! Precedence: an empty chain and a configured-but-mismatched CA pin set are
//! hard failures; a leaf-pin mismatch or a DNS consensus failure is advisory
//! and hands the decision to the operator.

use vstd::prelude::*;
use crate::errors::VerifyError;
use crate::fingerprint::{cert_der_sha256_hex, der_fingerprint, spki_fingerprint, spki_sha256_hex};
use crate::pins::{is_canon_pin, PinSet};
use crate::store::TrustRecord;
use crate::text::{trim_chars, trim_spec, to_upper_string, upper_seq};

verus! {

/// Whether the leaf certificate is verified by leaf pinning: an empty
/// expected set never matches — absence of configured pins means "not
/// verified", not "anything passes".
pub open spec fn leaf_match_spec(expected: Set<Seq<char>>, leaf_der: Seq<u8>) -> bool {
    !expected.is_empty() && expected.contains(der_fingerprint(leaf_der))
}

/// Whether one issuer certificate satisfies the expected CA pin set, by its
/// DER fingerprint or — where the certificate parses — by its SPKI
/// fingerprint.
pub open spec fn cert_matches_ca(expected: Set<Seq<char>>, der: Seq<u8>) -> bool {
    expected.contains(der_fingerprint(der)) || (match spki_fingerprint(der) {
        Some(h) => expected.contains(h),
        None => false,
    })
}

/// Whether the CA pin gate passes: vacuously where nothing is configured,
/// otherwise some certificate of the chain beyond the leaf must match.
pub open spec fn ca_gate_passes(expected: Set<Seq<char>>, chain: Seq<Vec<u8>>) -> bool {
    expected.is_empty() || exists|i: int| 1 <= i < chain.len() && cert_matches_ca(expected, chain[i]@)
}

/// What the engine decides once a chain is in hand and no hard failure
/// occurred.
#[derive(Debug, Clone, PartialEq, Eq)]
pub enum ChainDecision {
    /// Leaf pin and DNS consensus both held: the endpoint is verified.
    Accepted,
    /// At least one advisory signal failed: surface the flags as warnings and
    /// hand the decision to the operator.
    NeedsOperator { consensus_failed: bool, leaf_mismatch: bool },
}

/// Evaluate a negotiated certificate chain against the loaded pin sets and
/// the DNS consensus signal, in the engine's order of precedence:
/// an empty chain fails hard; with CA pinning enabled, a non-empty expected
/// CA set that matches no issuer certificate fails hard; a leaf-pin match
/// together with DNS consensus is accepted; anything else goes to the
/// operator.
pub fn evaluate_chain(
    chain: &Vec<Vec<u8>>,
    expected_leaf: &PinSet,
    expected_ca: &PinSet,
    ca_pinning_enabled: bool,
    consensus_ok: bool,
) -> (r: Result<ChainDecision, VerifyError>)
    ensures
        chain@.len() == 0 ==> r == Err::<ChainDecision, VerifyError>(
            VerifyError::NoPeerCertificates,
        ),
        chain@.len() > 0 && ca_pinning_enabled && !ca_gate_passes(expected_ca.pins(), chain@)
            ==> r == Err::<ChainDecision, VerifyError>(VerifyError::CaPinConfiguredButMismatch),
        chain@.len() > 0 && (!ca_pinning_enabled || ca_gate_passes(expected_ca.pins(), chain@))
            ==> r == Ok::<ChainDecision, VerifyError>(
            if leaf_match_spec(expected_leaf.pins(), chain@[0]@) && consensus_ok {
                ChainDecision::Accepted
            } else {
                ChainDecision::NeedsOperator {
                    consensus_failed: !consensus_ok,
                    leaf_mismatch: !leaf_match_spec(expected_leaf.pins(), chain@[0]@),
                }
            },
        ),
{
    if chain.len() == 0 {
        return Err(VerifyError::NoPeerCertificates);
    }

    // CA pin gate: mandatory once configured, never bypassed by the fallback.
    if ca_pinning_enabled && !expected_ca.is_empty() {
        let mut ca_match = false;
        let mut idx: usize = 1;
        while idx < chain.len()
            invariant
                1 <= idx <= chain@.len(),
                ca_match == exists|i: int|
                    1 <= i < idx && cert_matches_ca(expected_ca.pins(), chain@[i]@),
            decreases chain@.len() - idx,
        {
            if !ca_match {
                let der_hex = cert_der_sha256_hex(chain[idx].as_slice());
                if expected_ca.contains_exact(der_hex.as_str()) {
                    ca_match = true;
                } else {
                    match spki_sha256_hex(chain[idx].as_slice()) {
                        Ok(spki_hex) => {
                            if expected_ca.contains_exact(spki_hex.as_str()) {
                                ca_match = true;
                            }
                        },
                        Err(_) => {},
                    }
                }
                proof {
                    if ca_match {
                        assert(cert_matches_ca(expected_ca.pins(), chain@[idx as int]@));
                    }
                }
            }
            idx = idx + 1;
        }
        if !ca_match {
            return Err(VerifyError::CaPinConfiguredButMismatch);
        }
    }

    // Leaf pinning is decided on the end-entity certificate alone.
    let leaf_hex = cert_der_sha256_hex(chain[0].as_slice());
    let leaf_ok = !expected_leaf.is_empty() && expected_leaf.contains_exact(leaf_hex.as_str());

    if leaf_ok && consensus_ok {
        Ok(ChainDecision::Accepted)
    } else {
        Ok(
            ChainDecision::NeedsOperator {
                consensus_failed: !consensus_ok,
                leaf_mismatch: !leaf_ok,
            },
        )
    }
}

/// The issuer fingerprints offered at the trust-on-first-use prompt.
#[derive(Debug, Clone, PartialEq, Eq)]
pub struct TofuCandidate {
    /// SHA-256 of the issuer certificate's DER encoding, upper-case hex.
    pub der_sha256: String,
    /// SHA-256 of its SPKI encoding, absent where the certificate does not
    /// parse.
    pub spki_sha256: Option<String>,
}

/// The first issuer certificate of the chain as a trust candidate; a chain
/// without an issuer certificate makes the fallback impossible.
pub fn tofu_candidate(chain: &Vec<Vec<u8>>) -> (r: Result<TofuCandidate, VerifyError>)
    ensures
        chain@.len() < 2 ==> r == Err::<TofuCandidate, VerifyError>(
            VerifyError::InsufficientChainForTrust,
        ),
        chain@.len() >= 2 ==> match r {
            Ok(c) => {
                &&& c.der_sha256@ == der_fingerprint(chain@[1]@)
                &&& is_canon_pin(c.der_sha256@)
                &&& match c.spki_sha256 {
                    Some(s) => spki_fingerprint(chain@[1]@) == Some(s@) && is_canon_pin(s@),
                    None => spki_fingerprint(chain@[1]@) is None,
                }
            },
            Err(_) => false,
        },
{
    if chain.len() < 2 {
        return Err(VerifyError::InsufficientChainForTrust);
    }
    let der_hex = cert_der_sha256_hex(chain[1].as_slice());
    let spki_hex = match spki_sha256_hex(chain[1].as_slice()) {
        Ok(h) => Some(h),
        Err(_) => None,
    };
    Ok(TofuCandidate { der_sha256: der_hex, spki_sha256: spki_hex })
}

/// Whether a console answer counts as affirmative: case-insensitive `Y` or
/// `YES` after trimming; anything else is negative.
pub open spec fn affirmative_spec(answer: Seq<char>) -> bool {
    upper_seq(trim_spec(answer)) == "Y"@ || upper_seq(trim_spec(answer)) == "YES"@
}

/// Decide one operator answer, verified against `affirmative_spec`.
pub fn is_affirmative(answer: &str) -> (r: bool)
    ensures
        r == affirmative_spec(answer@),
{
    let trimmed = trim_chars(answer);
    let upper = to_upper_string(trimmed.as_str());
    crate::text::str_eq(upper.as_str(), "Y") || crate::text::str_eq(upper.as_str(), "YES")
}

/// Decide one trust-on-first-use prompt outcome. An affirmative answer turns
/// the candidate into a trust record for `host`, stamped `stored_at`, to be
/// persisted by the caller; anything else refuses the endpoint.
///
/// Deliberately, an accepted answer concludes the call as a success without
/// re-checking the leaf pin or the DNS consensus whose failure raised the
/// prompt: the operator's approval of the issuer stands for this call.
pub fn tofu_decision(
    host: &str,
    note: &str,
    candidate: &TofuCandidate,
    answer: &str,
    stored_at: String,
) -> (r: Result<TrustRecord, VerifyError>)
    requires
        is_canon_pin(candidate.der_sha256@),
        candidate.spki_sha256 matches Some(s) ==> is_canon_pin(s@),
    ensures
        match r {
            Ok(rec) => {
                &&& affirmative_spec(answer@)
                &&& rec.wf()
                &&& rec.host@ == host@
                &&& rec.note@ == note@
                &&& rec.stored_at@ == stored_at@
                &&& rec.der_sha256 matches Some(d) && d@ == candidate.der_sha256@
                &&& match candidate.spki_sha256 {
                    Some(s) => rec.spki_sha256 matches Some(rs) && rs@ == s@,
                    None => rec.spki_sha256 is None,
                }
            },
            Err(e) => e == VerifyError::UserDeclinedTrust && !affirmative_spec(answer@),
        },
{
    if !is_affirmative(answer) {
        return Err(VerifyError::UserDeclinedTrust);
    }
    let spki = match &candidate.spki_sha256 {
        Some(s) => Some(s.clone()),
        None => None,
    };
    Ok(
        TrustRecord {
            host: host.to_owned(),
            der_sha256: Some(candidate.der_sha256.clone()),
            spki_sha256: spki,
            stored_at,
            note: note.to_owned(),
        },
    )
}

/// The exact text of the minimal HTTP request sent after the handshake,
/// solely to complete and flush it; its response is not interpreted.
pub open spec fn handshake_request_spec(host: Seq<char>) -> Seq<char> {
    "GET /v1/users/me HTTP/1.1\r\nHost: "@ + host + "\r\nConnection: close\r\n\r\n"@
}

/// Build the post-handshake request for a host, verified against
/// `handshake_request_spec`.
pub fn handshake_request(host: &str) -> (r: String)
    ensures
        r@ == handshake_request_spec(host@),
{
    let mut out = String::new();
    out.append("GET /v1/users/me HTTP/1.1\r\nHost: ");
    out.append(host);
    out.append("\r\nConnection: close\r\n\r\n");
    out
}

/// Law: with a chain of length 1 there is no issuer certificate, so a
/// non-empty expected CA pin set can never be satisfied and — by
/// `evaluate_chain`'s contract — CA pinning fails hard.
pub proof fn lemma_ca_gate_needs_issuer(expected_ca: Set<Seq<char>>, chain: Seq<Vec<u8>>)
    requires
        chain.len() == 1,
        !expected_ca.is_empty(),
    ensures
        !ca_gate_passes(expected_ca, chain),
{
}

/// Law: a leaf pin set holding exactly the DER-SHA-256 fingerprint of one
/// certificate matches that certificate, and no certificate whose fingerprint
/// differs.
pub proof fn lemma_leaf_pin_exact(expected: Set<Seq<char>>, der: Seq<u8>, other: Seq<u8>)
    requires
        expected == Set::<Seq<char>>::empty().insert(der_fingerprint(der)),
        der_fingerprint(other) != der_fingerprint(der),
    ensures
        leaf_match_spec(expected, der),
        !leaf_match_spec(expected, other),
{
    assert(expected.contains(der_fingerprint(der)));
}

/// Law: a trust file whose `spki_sha256` field normalises to the SPKI
/// fingerprint of some issuer certificate of the chain satisfies the CA pin
/// gate, through any expected set that includes the file's pins (the merged
/// set always does). Whether the decision then is acceptance or the operator
/// prompt stays with the leaf pin and the DNS consensus alone.
pub proof fn lemma_trust_spki_satisfies_gate(
    t: Seq<char>,
    chain: Seq<Vec<u8>>,
    i: int,
    expected_ca: Set<Seq<char>>,
)
    requires
        1 <= i < chain.len(),
        spki_fingerprint(chain[i]@) matches Some(h) && crate::store::trust_field_pin(
            t,
            "spki_sha256"@,
        ) == Some(h),
        crate::store::trust_pin_set(t).subset_of(expected_ca),
    ensures
        ca_gate_passes(expected_ca, chain),
{
    let h = spki_fingerprint(chain[i]@)->Some_0;
    assert(crate::store::trust_pin_set(t).contains(h));
    assert(expected_ca.contains(h));
    assert(cert_matches_ca(expected_ca, chain[i]@));
}

} // verus!
