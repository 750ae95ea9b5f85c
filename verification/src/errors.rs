//! The error taxonomy of the verification engine. Every failure is surfaced
//! to the caller with enough context to log; nothing is retried internally.

use vstd::prelude::*;

verus! {

/// Why a verification call failed.
#[derive(Debug, Clone, PartialEq, Eq)]
pub enum VerifyError {
    /// Malformed pin manifest or trust-record JSON; aborts before network
    /// activity.
    ManifestParseError,
    /// The TLS handshake or its chain validation failed; immediate abort with
    /// no fallback.
    TlsHandshakeFailed,
    /// The handshake succeeded but yielded an empty certificate chain.
    NoPeerCertificates,
    /// A non-empty expected CA pin set matched none of the issuer
    /// certificates; bypasses the operator prompt by design.
    CaPinConfiguredButMismatch,
    /// Trust-on-first-use was requested but the chain has no issuer
    /// certificate to offer.
    InsufficientChainForTrust,
    /// The operator did not answer affirmatively at the trust prompt.
    UserDeclinedTrust,
    /// A certificate's bytes do not parse as X.509.
    CertificateParseError,
    /// A filesystem failure on a required read or write, with the failing
    /// path attached.
    IoError { path: String },
}

impl VerifyError {
    /// A diagnostic line for the caller to print or log.
    pub fn message(&self) -> (r: String)
        ensures
            r@.len() > 0,
    {
        let mut out = String::new();
        match self {
            VerifyError::ManifestParseError => {
                out.append("malformed pin manifest or trust record JSON");
            },
            VerifyError::TlsHandshakeFailed => {
                out.append("TLS handshake or chain validation failed");
            },
            VerifyError::NoPeerCertificates => {
                out.append("handshake yielded no peer certificates");
            },
            VerifyError::CaPinConfiguredButMismatch => {
                out.append("CA certificate pin mismatch");
            },
            VerifyError::InsufficientChainForTrust => {
                out.append("cannot update CA: no CA certificate found in peer chain");
            },
            VerifyError::UserDeclinedTrust => {
                out.append("user declined CA update");
            },
            VerifyError::CertificateParseError => {
                out.append("failed to parse certificate DER");
            },
            VerifyError::IoError { path } => {
                out.append("filesystem error at ");
                out.append(path.as_str());
            },
        }
        proof {
            reveal_strlit("malformed pin manifest or trust record JSON");
            reveal_strlit("TLS handshake or chain validation failed");
            reveal_strlit("handshake yielded no peer certificates");
            reveal_strlit("CA certificate pin mismatch");
            reveal_strlit("cannot update CA: no CA certificate found in peer chain");
            reveal_strlit("user declined CA update");
            reveal_strlit("failed to parse certificate DER");
            reveal_strlit("filesystem error at ");
        }
        out
    }
}

} // verus!
