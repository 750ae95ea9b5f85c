use notionssh::dns::{dns_consensus_ok, doh_answer_addresses, doh_query_urls};
use notionssh::errors::VerifyError;
use notionssh::fingerprint::{cert_der_sha256_hex, spki_sha256_hex};
use notionssh::pins::PinSet;
use notionssh::store::{
    bootstrap_candidate, classify_pin_file, load_ca_json_pins, load_expected_ca_pins,
    load_expected_pins, load_trust_record, load_verify_format, saved_ca_pins_exist,
    trust_record_json, FlatFileRole, TrustRecord,
};
use notionssh::verify::{
    evaluate_chain, handshake_request, is_affirmative, tofu_candidate, tofu_decision,
    ChainDecision,
};
use sha2::{Digest, Sha256};
use x509_parser::prelude::{FromDer, X509Certificate};

/// A real certificate in DER form, used as issuer material in tests.
const TEST_CERT_DER: [u8; 1375] = [
    0x30, 0x82, 0x05, 0x5B, 0x30, 0x82, 0x04, 0x43, 0xA0, 0x03, 0x02, 0x01, 0x02, 0x02, 0x12, 0x03,
    0x20, 0x48, 0x03, 0x0B, 0xBB, 0x34, 0x10, 0xF9, 0x09, 0x3C, 0x57, 0xF2, 0xCB, 0x83, 0x08, 0xC8,
    0x05, 0x30, 0x0D, 0x06, 0x09, 0x2A, 0x86, 0x48, 0x86, 0xF7, 0x0D, 0x01, 0x01, 0x0B, 0x05, 0x00,
    0x30, 0x4A, 0x31, 0x0B, 0x30, 0x09, 0x06, 0x03, 0x55, 0x04, 0x06, 0x13, 0x02, 0x55, 0x53, 0x31,
    0x16, 0x30, 0x14, 0x06, 0x03, 0x55, 0x04, 0x0A, 0x13, 0x0D, 0x4C, 0x65, 0x74, 0x27, 0x73, 0x20,
    0x45, 0x6E, 0x63, 0x72, 0x79, 0x70, 0x74, 0x31, 0x23, 0x30, 0x21, 0x06, 0x03, 0x55, 0x04, 0x03,
    0x13, 0x1A, 0x4C, 0x65, 0x74, 0x27, 0x73, 0x20, 0x45, 0x6E, 0x63, 0x72, 0x79, 0x70, 0x74, 0x20,
    0x41, 0x75, 0x74, 0x68, 0x6F, 0x72, 0x69, 0x74, 0x79, 0x20, 0x58, 0x33, 0x30, 0x1E, 0x17, 0x0D,
    0x31, 0x39, 0x30, 0x37, 0x31, 0x32, 0x31, 0x31, 0x31, 0x32, 0x33, 0x30, 0x5A, 0x17, 0x0D, 0x31,
    0x39, 0x31, 0x30, 0x31, 0x30, 0x31, 0x31, 0x31, 0x32, 0x33, 0x30, 0x5A, 0x30, 0x1D, 0x31, 0x1B,
    0x30, 0x19, 0x06, 0x03, 0x55, 0x04, 0x03, 0x13, 0x12, 0x6C, 0x69, 0x73, 0x74, 0x73, 0x2E, 0x66,
    0x6F, 0x72, 0x2D, 0x6F, 0x75, 0x72, 0x2E, 0x69, 0x6E, 0x66, 0x6F, 0x30, 0x82, 0x01, 0x22, 0x30,
    0x0D, 0x06, 0x09, 0x2A, 0x86, 0x48, 0x86, 0xF7, 0x0D, 0x01, 0x01, 0x01, 0x05, 0x00, 0x03, 0x82,
    0x01, 0x0F, 0x00, 0x30, 0x82, 0x01, 0x0A, 0x02, 0x82, 0x01, 0x01, 0x00, 0xC5, 0x68, 0xB6, 0x2D,
    0xF8, 0x5F, 0x8E, 0x83, 0x68, 0x8D, 0xA7, 0x5F, 0x6E, 0x02, 0xF9, 0xA6, 0x76, 0x39, 0xF9, 0x26,
    0x84, 0xA6, 0xE2, 0x76, 0x25, 0xE2, 0x45, 0x3A, 0x27, 0xD4, 0xC2, 0xD2, 0x30, 0x69, 0x75, 0xA0,
    0xD5, 0xBD, 0x33, 0x24, 0x72, 0x61, 0x80, 0xB3, 0x3F, 0x88, 0xFA, 0x0C, 0xD2, 0x82, 0x84, 0x99,
    0xEB, 0xF1, 0x99, 0xD5, 0x4A, 0x18, 0x76, 0xA1, 0x90, 0xFE, 0xC8, 0x75, 0x8F, 0xF6, 0x5A, 0x67,
    0x5C, 0xC1, 0xA4, 0x6E, 0xC5, 0x31, 0x7A, 0x34, 0x4C, 0x53, 0xD8, 0x67, 0x68, 0x00, 0x79, 0xD2,
    0x95, 0xD1, 0x20, 0x30, 0x33, 0x6A, 0xF9, 0x15, 0x14, 0x28, 0x2E, 0x16, 0x52, 0x7C, 0x9C, 0xA9,
    0x2F, 0xFD, 0x8D, 0x40, 0xBE, 0x5C, 0x3B, 0xB5, 0xCD, 0x9A, 0x64, 0xE7, 0x77, 0x94, 0xE6, 0x41,
    0x12, 0xBF, 0x20, 0x27, 0xC9, 0x91, 0x0C, 0x6A, 0xAA, 0xB0, 0xD5, 0x3E, 0x67, 0x5D, 0x88, 0xEA,
    0xC9, 0x44, 0xB2, 0xDC, 0xC6, 0x32, 0x9B, 0x2A, 0xE8, 0x07, 0xB0, 0x09, 0x5C, 0x38, 0x94, 0xC8,
    0xDD, 0x59, 0x68, 0x2E, 0x83, 0x35, 0x2B, 0xC5, 0x04, 0xD1, 0x02, 0xC1, 0xBC, 0xEE, 0x89, 0xFA,
    0x80, 0xE8, 0x90, 0x1F, 0x67, 0x0C, 0x38, 0x33, 0x77, 0x2F, 0xB1, 0x6A, 0xE0, 0xA3, 0x8B, 0x40,
    0x88, 0xDB, 0xDF, 0xF9, 0x6E, 0x42, 0x10, 0x10, 0x86, 0x97, 0x4A, 0x98, 0x41, 0x85, 0x2E, 0x29,
    0xF7, 0x73, 0xE7, 0xF9, 0xA2, 0xBD, 0xED, 0x84, 0x20, 0xEE, 0xC3, 0x00, 0xED, 0x39, 0x4D, 0x65,
    0x65, 0xFF, 0xBC, 0xB7, 0xD4, 0xBC, 0xA5, 0x93, 0xCB, 0xAD, 0x9A, 0xC8, 0xB3, 0xA1, 0xF6, 0xC6,
    0x35, 0xEA, 0x09, 0x1B, 0x94, 0x63, 0xB8, 0x91, 0x35, 0xB3, 0xB5, 0xF1, 0x49, 0x1C, 0xEA, 0xB9,
    0x43, 0x62, 0x10, 0x63, 0xF4, 0xB4, 0xFE, 0x72, 0x99, 0x81, 0x6C, 0x71, 0x02, 0x03, 0x01, 0x00,
    0x01, 0xA3, 0x82, 0x02, 0x66, 0x30, 0x82, 0x02, 0x62, 0x30, 0x0E, 0x06, 0x03, 0x55, 0x1D, 0x0F,
    0x01, 0x01, 0xFF, 0x04, 0x04, 0x03, 0x02, 0x05, 0xA0, 0x30, 0x1D, 0x06, 0x03, 0x55, 0x1D, 0x25,
    0x04, 0x16, 0x30, 0x14, 0x06, 0x08, 0x2B, 0x06, 0x01, 0x05, 0x05, 0x07, 0x03, 0x01, 0x06, 0x08,
    0x2B, 0x06, 0x01, 0x05, 0x05, 0x07, 0x03, 0x02, 0x30, 0x0C, 0x06, 0x03, 0x55, 0x1D, 0x13, 0x01,
    0x01, 0xFF, 0x04, 0x02, 0x30, 0x00, 0x30, 0x1D, 0x06, 0x03, 0x55, 0x1D, 0x0E, 0x04, 0x16, 0x04,
    0x14, 0x26, 0x3D, 0xA9, 0xBD, 0x1B, 0x65, 0xDC, 0x69, 0x68, 0x1F, 0x71, 0xDE, 0xE8, 0x55, 0xF5,
    0x76, 0xCD, 0xD7, 0xD1, 0x51, 0x30, 0x1F, 0x06, 0x03, 0x55, 0x1D, 0x23, 0x04, 0x18, 0x30, 0x16,
    0x80, 0x14, 0xA8, 0x4A, 0x6A, 0x63, 0x04, 0x7D, 0xDD, 0xBA, 0xE6, 0xD1, 0x39, 0xB7, 0xA6, 0x45,
    0x65, 0xEF, 0xF3, 0xA8, 0xEC, 0xA1, 0x30, 0x6F, 0x06, 0x08, 0x2B, 0x06, 0x01, 0x05, 0x05, 0x07,
    0x01, 0x01, 0x04, 0x63, 0x30, 0x61, 0x30, 0x2E, 0x06, 0x08, 0x2B, 0x06, 0x01, 0x05, 0x05, 0x07,
    0x30, 0x01, 0x86, 0x22, 0x68, 0x74, 0x74, 0x70, 0x3A, 0x2F, 0x2F, 0x6F, 0x63, 0x73, 0x70, 0x2E,
    0x69, 0x6E, 0x74, 0x2D, 0x78, 0x33, 0x2E, 0x6C, 0x65, 0x74, 0x73, 0x65, 0x6E, 0x63, 0x72, 0x79,
    0x70, 0x74, 0x2E, 0x6F, 0x72, 0x67, 0x30, 0x2F, 0x06, 0x08, 0x2B, 0x06, 0x01, 0x05, 0x05, 0x07,
    0x30, 0x02, 0x86, 0x23, 0x68, 0x74, 0x74, 0x70, 0x3A, 0x2F, 0x2F, 0x63, 0x65, 0x72, 0x74, 0x2E,
    0x69, 0x6E, 0x74, 0x2D, 0x78, 0x33, 0x2E, 0x6C, 0x65, 0x74, 0x73, 0x65, 0x6E, 0x63, 0x72, 0x79,
    0x70, 0x74, 0x2E, 0x6F, 0x72, 0x67, 0x2F, 0x30, 0x1D, 0x06, 0x03, 0x55, 0x1D, 0x11, 0x04, 0x16,
    0x30, 0x14, 0x82, 0x12, 0x6C, 0x69, 0x73, 0x74, 0x73, 0x2E, 0x66, 0x6F, 0x72, 0x2D, 0x6F, 0x75,
    0x72, 0x2E, 0x69, 0x6E, 0x66, 0x6F, 0x30, 0x4C, 0x06, 0x03, 0x55, 0x1D, 0x20, 0x04, 0x45, 0x30,
    0x43, 0x30, 0x08, 0x06, 0x06, 0x67, 0x81, 0x0C, 0x01, 0x02, 0x01, 0x30, 0x37, 0x06, 0x0B, 0x2B,
    0x06, 0x01, 0x04, 0x01, 0x82, 0xDF, 0x13, 0x01, 0x01, 0x01, 0x30, 0x28, 0x30, 0x26, 0x06, 0x08,
    0x2B, 0x06, 0x01, 0x05, 0x05, 0x07, 0x02, 0x01, 0x16, 0x1A, 0x68, 0x74, 0x74, 0x70, 0x3A, 0x2F,
    0x2F, 0x63, 0x70, 0x73, 0x2E, 0x6C, 0x65, 0x74, 0x73, 0x65, 0x6E, 0x63, 0x72, 0x79, 0x70, 0x74,
    0x2E, 0x6F, 0x72, 0x67, 0x30, 0x82, 0x01, 0x03, 0x06, 0x0A, 0x2B, 0x06, 0x01, 0x04, 0x01, 0xD6,
    0x79, 0x02, 0x04, 0x02, 0x04, 0x81, 0xF4, 0x04, 0x81, 0xF1, 0x00, 0xEF, 0x00, 0x76, 0x00, 0x29,
    0x3C, 0x51, 0x96, 0x54, 0xC8, 0x39, 0x65, 0xBA, 0xAA, 0x50, 0xFC, 0x58, 0x07, 0xD4, 0xB7, 0x6F,
    0xBF, 0x58, 0x7A, 0x29, 0x72, 0xDC, 0xA4, 0xC3, 0x0C, 0xF4, 0xE5, 0x45, 0x47, 0xF4, 0x78, 0x00,
    0x00, 0x01, 0x6B, 0xE6, 0x19, 0x5E, 0xF2, 0x00, 0x00, 0x04, 0x03, 0x00, 0x47, 0x30, 0x45, 0x02,
    0x20, 0x24, 0x0B, 0xD9, 0x29, 0xB5, 0xE1, 0xA0, 0x8C, 0x2F, 0x15, 0xFD, 0x6B, 0xD4, 0x5B, 0xC9,
    0x28, 0x32, 0x05, 0xF8, 0x9C, 0x84, 0xC4, 0x5D, 0x6E, 0xEE, 0x90, 0x03, 0x63, 0x1B, 0xAE, 0x5E,
    0x1E, 0x02, 0x21, 0x00, 0xD6, 0xF8, 0x09, 0xEE, 0xC9, 0xEA, 0x51, 0x60, 0xA0, 0xA2, 0xA1, 0x04,
    0xDD, 0x21, 0x1F, 0x2B, 0x78, 0xA8, 0x32, 0x8A, 0x73, 0x58, 0x1B, 0x0F, 0xBC, 0x6E, 0x8B, 0x74,
    0x2B, 0x82, 0x31, 0x10, 0x00, 0x75, 0x00, 0x6F, 0x53, 0x76, 0xAC, 0x31, 0xF0, 0x31, 0x19, 0xD8,
    0x99, 0x00, 0xA4, 0x51, 0x15, 0xFF, 0x77, 0x15, 0x1C, 0x11, 0xD9, 0x02, 0xC1, 0x00, 0x29, 0x06,
    0x8D, 0xB2, 0x08, 0x9A, 0x37, 0xD9, 0x13, 0x00, 0x00, 0x01, 0x6B, 0xE6, 0x19, 0x5F, 0x68, 0x00,
    0x00, 0x04, 0x03, 0x00, 0x46, 0x30, 0x44, 0x02, 0x20, 0x4C, 0x46, 0xAB, 0x0D, 0xCB, 0xA3, 0x49,
    0xD2, 0x0B, 0x25, 0x2E, 0x4D, 0x17, 0xFD, 0xD8, 0x58, 0x06, 0x01, 0x2C, 0x16, 0x62, 0x38, 0xB9,
    0x50, 0x69, 0xD7, 0xB9, 0x89, 0xE9, 0x26, 0xB0, 0x2F, 0x02, 0x20, 0x70, 0xF0, 0x05, 0x95, 0x6A,
    0x0F, 0x1F, 0xCD, 0x9E, 0x28, 0x80, 0x08, 0x58, 0xF4, 0x41, 0x51, 0x35, 0xD2, 0xEB, 0x51, 0xC0,
    0x63, 0x4A, 0xD8, 0xA9, 0x2F, 0xCF, 0x3C, 0xBF, 0x2B, 0xB1, 0x2B, 0x30, 0x0D, 0x06, 0x09, 0x2A,
    0x86, 0x48, 0x86, 0xF7, 0x0D, 0x01, 0x01, 0x0B, 0x05, 0x00, 0x03, 0x82, 0x01, 0x01, 0x00, 0x17,
    0xC0, 0x41, 0x2C, 0x3B, 0xD2, 0x59, 0x98, 0x39, 0xEC, 0x1E, 0x9A, 0x0E, 0xDC, 0xDF, 0x51, 0x34,
    0x86, 0x7A, 0xD0, 0x98, 0xB3, 0x79, 0x34, 0xBC, 0x9A, 0x82, 0x26, 0x52, 0xFE, 0x3F, 0x3E, 0xFF,
    0x52, 0xBB, 0x82, 0x4A, 0xCA, 0x23, 0x43, 0x3A, 0x79, 0x47, 0xA8, 0xEF, 0xBE, 0x06, 0x10, 0xF3,
    0x73, 0x1A, 0x21, 0xDC, 0x1E, 0xDA, 0x68, 0x2D, 0xF8, 0xE0, 0x90, 0x07, 0x9B, 0xFB, 0xCA, 0x57,
    0x2D, 0xC8, 0x1C, 0xC1, 0x99, 0x82, 0x30, 0xF6, 0x73, 0xE7, 0xC4, 0x40, 0xBB, 0x1E, 0x57, 0x09,
    0x2F, 0x62, 0xBF, 0x93, 0x96, 0x63, 0x24, 0x54, 0x67, 0xBF, 0x89, 0x15, 0xD5, 0x28, 0xBC, 0xF9,
    0x32, 0x29, 0x10, 0x05, 0x74, 0x92, 0xC7, 0xF7, 0xF4, 0xA1, 0x8A, 0x7A, 0x61, 0xBC, 0x90, 0x68,
    0xB8, 0x19, 0x75, 0x75, 0xBF, 0x4D, 0xF3, 0x4A, 0xFD, 0x29, 0xF1, 0xA0, 0x9A, 0xAE, 0x9B, 0xA8,
    0x48, 0xA0, 0x49, 0xE2, 0xA9, 0x41, 0xD0, 0x2B, 0xE6, 0x4B, 0x63, 0x2A, 0x57, 0x82, 0xA7, 0xCC,
    0xED, 0x0E, 0xDA, 0x1D, 0x1C, 0xFD, 0x94, 0x38, 0x8E, 0x0E, 0xE5, 0xE7, 0x77, 0xA2, 0x37, 0xB5,
    0x4F, 0x75, 0x13, 0x0C, 0x3B, 0x50, 0xD1, 0xC3, 0xE3, 0x1A, 0x5B, 0xA2, 0x3F, 0x84, 0x46, 0x69,
    0xFA, 0x86, 0x50, 0xEE, 0x18, 0x4A, 0x5E, 0x02, 0x94, 0x06, 0xF1, 0x78, 0x20, 0x6C, 0x32, 0xAD,
    0xFC, 0x88, 0x67, 0xC0, 0x1E, 0x58, 0xA1, 0xB8, 0x20, 0xFF, 0x7C, 0x08, 0xE8, 0x32, 0x45, 0xBC,
    0xFB, 0xAA, 0xDA, 0xC0, 0x55, 0xEB, 0xD1, 0x28, 0x23, 0x34, 0x64, 0x2D, 0xAD, 0xD3, 0x80, 0x36,
    0x15, 0xC8, 0xB1, 0xE3, 0x41, 0x4A, 0x11, 0xE8, 0x84, 0xD3, 0xDD, 0xC0, 0x8F, 0x77, 0x30, 0x78,
    0xC6, 0x31, 0x34, 0xB3, 0xE0, 0xC2, 0x04, 0x0F, 0xF1, 0x7B, 0xB7, 0x90, 0x0E, 0x50, 0x13,
];

const CERT_DER_SHA256: &str = "8FA4CB4E938B5A855FB1497FA288AC55723E0109D0518B505481348DEC0DE471";
const CERT_SPKI_SHA256: &str = "BC813ED6DBC0E79F0349CA35BFBECB994647788BDC7A729793117CBE630E8121";

fn pin_set(pins: &[&str]) -> PinSet {
    let mut set = PinSet::new();
    for p in pins {
        set.insert_normalized(p);
    }
    set
}

// --- fingerprints -----------------------------------------------------------

#[test]
fn der_fingerprint_known_vectors() {
    assert_eq!(
        cert_der_sha256_hex(&[]),
        "E3B0C44298FC1C149AFBF4C8996FB92427AE41E4649B934CA495991B7852B855"
    );
    assert_eq!(
        cert_der_sha256_hex(b"abc"),
        "BA7816BF8F01CFEA414140DE5DAE2223B00361A396177A9CB410FF61F20015AD"
    );
    assert_eq!(cert_der_sha256_hex(&TEST_CERT_DER), CERT_DER_SHA256);
}

#[test]
fn spki_fingerprint_of_real_certificate() {
    let spki_hex = spki_sha256_hex(&TEST_CERT_DER).unwrap();
    assert_eq!(spki_hex, CERT_SPKI_SHA256);
    assert_ne!(spki_hex, CERT_DER_SHA256);

    // the same computation made directly with the outside crates
    let (_, cert) = X509Certificate::from_der(&TEST_CERT_DER).unwrap();
    let direct = Sha256::digest(cert.tbs_certificate.subject_pki.raw);
    let direct_hex: String = direct.iter().map(|b| format!("{:02X}", b)).collect();
    assert_eq!(spki_hex, direct_hex);
}

#[test]
fn spki_of_garbage_is_a_parse_error() {
    assert_eq!(
        spki_sha256_hex(b"not a certificate"),
        Err(VerifyError::CertificateParseError)
    );
}

// --- the pin store ----------------------------------------------------------

#[test]
fn manifest_sets_are_loaded_and_normalized() {
    let manifest = format!(
        r#"{{"leaf_sha256": ["{}", "xx"], "ca_der_sha256": ["{}"], "ca_spki_sha256": []}}"#,
        "ab:cd".repeat(16),
        "ff".repeat(32)
    );
    let m = load_verify_format(&manifest).unwrap();
    assert!(m.leaf.contains_exact(&"ABCD".repeat(16)));
    assert!(!m.leaf.contains_exact("xx"));
    assert!(m.ca_der.contains_exact(&"FF".repeat(32)));
    assert!(m.ca_spki.is_empty());

    assert_eq!(
        load_verify_format("{ not json").unwrap_err(),
        VerifyError::ManifestParseError
    );
}

#[test]
fn flat_files_feed_the_right_sets() {
    let leaf_pin = "11".repeat(32);
    let ca_pin = "22".repeat(32);
    let files = vec![
        ("pins.txt".to_string(), format!("{}\nnot a pin\n", leaf_pin)),
        ("ca_issuer.sha256".to_string(), format!("{}\n", ca_pin)),
        ("notes.bin".to_string(), "33".repeat(32)),
    ];
    let leaf = load_expected_pins(None, &files).unwrap();
    assert!(leaf.contains_exact(&leaf_pin));
    assert!(!leaf.contains_exact(&ca_pin));
    assert!(!leaf.contains_exact(&"33".repeat(32)));

    let ca = load_expected_ca_pins(None, &files).unwrap();
    assert!(ca.contains_exact(&ca_pin));
    assert!(!ca.contains_exact(&leaf_pin));
}

#[test]
fn classify_names() {
    assert_eq!(classify_pin_file("notion-api.verify"), FlatFileRole::Ignored);
    assert_eq!(classify_pin_file("ca_roots.sha256"), FlatFileRole::Ca);
    assert_eq!(classify_pin_file("issuer.CA.txt"), FlatFileRole::Ca);
    assert_eq!(classify_pin_file("pins.txt"), FlatFileRole::Leaf);
    assert_eq!(classify_pin_file("pins.pin"), FlatFileRole::Leaf);
    assert_eq!(classify_pin_file("pins.sha256"), FlatFileRole::Leaf);
    assert_eq!(classify_pin_file("README"), FlatFileRole::Leaf);
    assert_eq!(classify_pin_file("pins.json"), FlatFileRole::Ignored);
}

// Persisting a trust record then reloading the pin store yields its pins.
#[test]
fn trust_record_roundtrip_reaches_ca_pins() {
    let der = "ab".repeat(32).to_uppercase();
    let spki = "cd".repeat(32).to_uppercase();
    let rec = TrustRecord {
        host: "api.notion.com".to_string(),
        der_sha256: Some(der.clone()),
        spki_sha256: Some(spki.clone()),
        stored_at: "2025-01-01T00:00:00+00:00".to_string(),
        note: "Stored CA public key for api.notion.com".to_string(),
    };
    let text = trust_record_json(&rec);
    let set = load_ca_json_pins(Some(&text)).unwrap();
    assert!(set.contains_exact(&der));
    assert!(set.contains_exact(&spki));
    assert!(saved_ca_pins_exist(Some(&text)));
    assert!(!saved_ca_pins_exist(None));
    assert!(!saved_ca_pins_exist(Some("{ bad json")));
}

#[test]
fn trust_record_json_exact_text() {
    let rec = TrustRecord {
        host: "h".to_string(),
        der_sha256: Some("A".repeat(64)),
        spki_sha256: None,
        stored_at: "2025-01-01T00:00:00+00:00".to_string(),
        note: "n".to_string(),
    };
    let expected = format!(
        "{{\n  \"der_sha256\": \"{}\",\n  \"host\": \"h\",\n  \"note\": \"n\",\n  \"stored_at\": \"2025-01-01T00:00:00+00:00\"\n}}",
        "A".repeat(64)
    );
    assert_eq!(trust_record_json(&rec), expected);
}

#[test]
fn trust_record_json_escapes_strings() {
    let rec = TrustRecord {
        host: "h\"x\\y\n".to_string(),
        der_sha256: None,
        spki_sha256: None,
        stored_at: "t".to_string(),
        note: "q".to_string(),
    };
    let text = trust_record_json(&rec);
    let v: serde_json::Value = serde_json::from_str(&text).unwrap();
    assert_eq!(v.get("host").unwrap().as_str().unwrap(), "h\"x\\y\n");
}

#[test]
fn bootstrap_prefers_manifest_then_flat_files() {
    let manifest = format!(
        r#"{{"ca_der_sha256": ["{}"], "ca_spki_sha256": ["{}"]}}"#,
        "aa".repeat(32),
        "bb".repeat(32)
    );
    let b = bootstrap_candidate(Some(&manifest), &vec![]).unwrap();
    assert_eq!(b.der_sha256.as_deref(), Some("AA".repeat(32).as_str()));
    assert_eq!(b.spki_sha256.as_deref(), Some("BB".repeat(32).as_str()));

    let files = vec![("ca_x.txt".to_string(), format!("{}\n", "cc".repeat(32)))];
    let b2 = bootstrap_candidate(None, &files).unwrap();
    assert_eq!(b2.der_sha256.as_deref(), Some("CC".repeat(32).as_str()));
    assert!(b2.spki_sha256.is_none());

    assert!(bootstrap_candidate(None, &vec![]).is_none());
    assert!(bootstrap_candidate(Some("{ bad"), &vec![]).is_none());
}

// --- DNS consensus ----------------------------------------------------------

#[test]
fn doh_urls_are_exact() {
    let urls = doh_query_urls("api.notion.com");
    assert_eq!(
        urls,
        vec![
            "https://cloudflare-dns.com/dns-query?name=api.notion.com&type=A".to_string(),
            "https://cloudflare-dns.com/dns-query?name=api.notion.com&type=AAAA".to_string(),
            "https://dns.google/resolve?name=api.notion.com&type=A".to_string(),
            "https://dns.google/resolve?name=api.notion.com&type=AAAA".to_string(),
        ]
    );
}

#[test]
fn doh_answers_keep_only_address_records() {
    let body = r#"{"Status":0,"Answer":[
        {"type":1,"data":"1.2.3.4"},
        {"type":28,"data":"2606:4700::1"},
        {"type":5,"data":"alias.example."},
        {"type":1,"data":7},
        {"data":"9.9.9.9"}
    ]}"#;
    assert_eq!(
        doh_answer_addresses(body),
        vec!["1.2.3.4".to_string(), "2606:4700::1".to_string()]
    );
    assert!(doh_answer_addresses("not json").is_empty());
    assert!(doh_answer_addresses(r#"{"Status":2}"#).is_empty());
}

#[test]
fn consensus_needs_overlap_and_both_sides() {
    let a = vec!["1.2.3.4".to_string(), "5.6.7.8".to_string()];
    let b = vec!["5.6.7.8".to_string()];
    let c = vec!["9.9.9.9".to_string()];
    assert!(dns_consensus_ok(&a, &b));
    assert!(!dns_consensus_ok(&a, &c));
    assert!(!dns_consensus_ok(&vec![], &b));
    assert!(!dns_consensus_ok(&a, &vec![]));
}

// --- the decision engine ----------------------------------------------------

// Scenario: the manifest's leaf pin matches the connected certificate and the
// resolutions intersect; verification succeeds with no operator involved.
#[test]
fn scenario_leaf_pin_and_consensus_succeed() {
    let leaf: Vec<u8> = b"leaf certificate bytes".to_vec();
    let manifest = format!(r#"{{"leaf_sha256": ["{}"]}}"#, cert_der_sha256_hex(&leaf));
    let expected_leaf = load_expected_pins(Some(&manifest), &vec![]).unwrap();
    let chain = vec![leaf, TEST_CERT_DER.to_vec()];
    let consensus = dns_consensus_ok(
        &vec!["1.2.3.4".to_string()],
        &vec!["1.2.3.4".to_string(), "5.6.7.8".to_string()],
    );
    assert!(consensus);
    let decision = evaluate_chain(&chain, &expected_leaf, &PinSet::new(), false, consensus);
    assert_eq!(decision, Ok(ChainDecision::Accepted));
}

// The same manifest refuses any other certificate's fingerprint.
#[test]
fn leaf_pin_rejects_other_certificates() {
    let leaf: Vec<u8> = b"leaf certificate bytes".to_vec();
    let manifest = format!(r#"{{"leaf_sha256": ["{}"]}}"#, cert_der_sha256_hex(&leaf));
    let expected_leaf = load_expected_pins(Some(&manifest), &vec![]).unwrap();
    let chain = vec![b"a different certificate".to_vec()];
    let decision = evaluate_chain(&chain, &expected_leaf, &PinSet::new(), false, true);
    assert_eq!(
        decision,
        Ok(ChainDecision::NeedsOperator { consensus_failed: false, leaf_mismatch: true })
    );
}

// An empty expected leaf set never matches: absence of pins is not a pass.
#[test]
fn empty_leaf_set_never_matches() {
    let chain = vec![b"whatever".to_vec()];
    let decision = evaluate_chain(&chain, &PinSet::new(), &PinSet::new(), false, true);
    assert_eq!(
        decision,
        Ok(ChainDecision::NeedsOperator { consensus_failed: false, leaf_mismatch: true })
    );
}

// A chain of length 1 with CA pinning enabled and pins configured fails hard:
// there is no issuer certificate to match.
#[test]
fn scenario_single_cert_chain_fails_ca_gate() {
    let ca = pin_set(&["ab".repeat(32).as_str()]);
    let chain = vec![b"only the leaf".to_vec()];
    let decision = evaluate_chain(&chain, &PinSet::new(), &ca, true, true);
    assert_eq!(decision, Err(VerifyError::CaPinConfiguredButMismatch));
}

#[test]
fn ca_gate_vacuous_when_unconfigured_or_disabled() {
    let chain = vec![b"leaf".to_vec()];
    assert_eq!(
        evaluate_chain(&chain, &PinSet::new(), &PinSet::new(), true, true),
        Ok(ChainDecision::NeedsOperator { consensus_failed: false, leaf_mismatch: true })
    );
    let ca = pin_set(&["ab".repeat(32).as_str()]);
    assert_eq!(
        evaluate_chain(&chain, &PinSet::new(), &ca, false, true),
        Ok(ChainDecision::NeedsOperator { consensus_failed: false, leaf_mismatch: true })
    );
}

#[test]
fn empty_chain_is_no_peer_certificates() {
    let chain: Vec<Vec<u8>> = vec![];
    let decision = evaluate_chain(&chain, &PinSet::new(), &PinSet::new(), false, true);
    assert_eq!(decision, Err(VerifyError::NoPeerCertificates));
}

// Scenario: a persisted trust record whose spki_sha256 equals the issuer's
// SPKI fingerprint satisfies the CA pin check; satisfying it alone does not
// conclude the call.
#[test]
fn scenario_trust_record_satisfies_ca_gate() {
    let leaf: Vec<u8> = b"leaf certificate bytes".to_vec();
    let chain = vec![leaf.clone(), TEST_CERT_DER.to_vec()];
    let rec = TrustRecord {
        host: "api.notion.com".to_string(),
        der_sha256: None,
        spki_sha256: Some(spki_sha256_hex(&TEST_CERT_DER).unwrap()),
        stored_at: "2025-01-01T00:00:00+00:00".to_string(),
        note: "Stored CA public key for api.notion.com".to_string(),
    };
    let text = trust_record_json(&rec);
    let ca = load_ca_json_pins(Some(&text)).unwrap();

    // leaf and DNS also pass: success with no prompt
    let manifest = format!(r#"{{"leaf_sha256": ["{}"]}}"#, cert_der_sha256_hex(&leaf));
    let expected_leaf = load_expected_pins(Some(&manifest), &vec![]).unwrap();
    assert_eq!(
        evaluate_chain(&chain, &expected_leaf, &ca, true, true),
        Ok(ChainDecision::Accepted)
    );

    // leaf and DNS fail: the CA pins match, yet the operator is still asked
    assert_eq!(
        evaluate_chain(&chain, &PinSet::new(), &ca, true, false),
        Ok(ChainDecision::NeedsOperator { consensus_failed: true, leaf_mismatch: true })
    );

    // a record for a different issuer is a hard mismatch
    let other = TrustRecord { spki_sha256: Some("ee".repeat(32).to_uppercase()), ..rec };
    let other_ca = load_ca_json_pins(Some(&trust_record_json(&other))).unwrap();
    assert_eq!(
        evaluate_chain(&chain, &PinSet::new(), &other_ca, true, true),
        Err(VerifyError::CaPinConfiguredButMismatch)
    );
}

#[test]
fn ca_gate_accepts_der_pin_of_issuer() {
    let chain = vec![b"leaf".to_vec(), TEST_CERT_DER.to_vec()];
    let ca = pin_set(&[CERT_DER_SHA256]);
    assert_eq!(
        evaluate_chain(&chain, &PinSet::new(), &ca, true, true),
        Ok(ChainDecision::NeedsOperator { consensus_failed: false, leaf_mismatch: true })
    );
}

// Scenario: nothing configured, resolutions disjoint; the operator is asked
// and answers no, so the call fails with the decline error.
#[test]
fn scenario_operator_declines_trust() {
    let expected_leaf = load_expected_pins(None, &vec![]).unwrap();
    assert!(expected_leaf.is_empty());
    let chain = vec![b"leaf".to_vec(), TEST_CERT_DER.to_vec()];
    let consensus = dns_consensus_ok(
        &vec!["1.2.3.4".to_string()],
        &vec!["9.9.9.9".to_string()],
    );
    assert!(!consensus);
    let decision =
        evaluate_chain(&chain, &expected_leaf, &PinSet::new(), false, consensus).unwrap();
    assert_eq!(
        decision,
        ChainDecision::NeedsOperator { consensus_failed: true, leaf_mismatch: true }
    );
    let cand = tofu_candidate(&chain).unwrap();
    let refused = tofu_decision(
        "api.notion.com",
        "Stored CA public key for api.notion.com",
        &cand,
        "N",
        "2025-01-01T00:00:00+00:00".to_string(),
    );
    assert_eq!(refused.unwrap_err(), VerifyError::UserDeclinedTrust);
}

// An affirmative answer persists the issuer's fingerprints for the host.
#[test]
fn operator_accepts_trust_and_record_is_usable() {
    let chain = vec![b"leaf".to_vec(), TEST_CERT_DER.to_vec()];
    let cand = tofu_candidate(&chain).unwrap();
    assert_eq!(cand.der_sha256, CERT_DER_SHA256);
    assert_eq!(cand.spki_sha256.as_deref(), Some(CERT_SPKI_SHA256));
    let rec = tofu_decision(
        "api.notion.com",
        "Stored CA public key for api.notion.com",
        &cand,
        " yes ",
        "2025-01-01T00:00:00+00:00".to_string(),
    )
    .unwrap();
    assert_eq!(rec.host, "api.notion.com");
    assert_eq!(rec.der_sha256.as_deref(), Some(CERT_DER_SHA256));

    // the persisted record feeds the CA gate on the next call
    let ca = load_ca_json_pins(Some(&trust_record_json(&rec))).unwrap();
    assert_eq!(
        evaluate_chain(&chain, &PinSet::new(), &ca, true, true),
        Ok(ChainDecision::NeedsOperator { consensus_failed: false, leaf_mismatch: true })
    );
}

// A chain without an issuer certificate makes the fallback impossible.
#[test]
fn tofu_needs_an_issuer_certificate() {
    let chain = vec![b"only the leaf".to_vec()];
    assert_eq!(
        tofu_candidate(&chain).unwrap_err(),
        VerifyError::InsufficientChainForTrust
    );
}

#[test]
fn affirmative_answers() {
    assert!(is_affirmative("Y"));
    assert!(is_affirmative("y"));
    assert!(is_affirmative("YES"));
    assert!(is_affirmative(" yes \n"));
    assert!(!is_affirmative("n"));
    assert!(!is_affirmative("yeah"));
    assert!(!is_affirmative(""));
    assert!(!is_affirmative("Y E S"));
}

// Scenario: a failed handshake is fatal before any engine decision; the
// caller maps it to this error and never reaches the prompt.
#[test]
fn handshake_failure_error_is_reportable() {
    let e = VerifyError::TlsHandshakeFailed;
    assert!(!e.message().is_empty());
    assert_eq!(e, VerifyError::TlsHandshakeFailed);
}

#[test]
fn error_messages_name_their_cause() {
    assert!(VerifyError::ManifestParseError.message().contains("manifest"));
    assert!(VerifyError::NoPeerCertificates.message().contains("certificates"));
    assert!(VerifyError::CaPinConfiguredButMismatch.message().contains("mismatch"));
    assert!(VerifyError::InsufficientChainForTrust.message().contains("CA"));
    assert!(VerifyError::UserDeclinedTrust.message().contains("declined"));
    assert!(VerifyError::CertificateParseError.message().contains("parse"));
    let io = VerifyError::IoError { path: "./verify".to_string() };
    assert!(io.message().contains("./verify"));
}

#[test]
fn handshake_request_text() {
    assert_eq!(
        handshake_request("api.notion.com"),
        "GET /v1/users/me HTTP/1.1\r\nHost: api.notion.com\r\nConnection: close\r\n\r\n"
    );
}

#[test]
fn flat_lines_tolerate_carriage_returns_and_colons() {
    let pin = "0a".repeat(32);
    let content = format!("# comment line\r\n{}\r\n\r\n", pin.replace("0a", "0:a"));
    let files = vec![("pins.txt".to_string(), content)];
    let set = load_expected_pins(None, &files).unwrap();
    assert!(set.contains_exact(&"0A".repeat(32)));
}

#[test]
fn classify_dot_edge_cases() {
    // a trailing dot leaves an empty extension, which no pin file has
    assert_eq!(classify_pin_file("file."), FlatFileRole::Ignored);
    // a leading dot alone is no extension
    assert_eq!(classify_pin_file(".hidden"), FlatFileRole::Leaf);
    assert_eq!(classify_pin_file("CA_upper.bin"), FlatFileRole::Ca);
}

#[test]
fn trust_record_full_roundtrip() {
    let rec = TrustRecord {
        host: "api.notion.com".to_string(),
        der_sha256: Some("ab".repeat(32).to_uppercase()),
        spki_sha256: Some("cd".repeat(32).to_uppercase()),
        stored_at: "2025-01-01T00:00:00+00:00".to_string(),
        note: "Stored CA public key for api.notion.com".to_string(),
    };
    let text = trust_record_json(&rec);
    let back = load_trust_record(Some(&text)).unwrap().unwrap();
    assert_eq!(back.host, rec.host);
    assert_eq!(back.der_sha256, rec.der_sha256);
    assert_eq!(back.spki_sha256, rec.spki_sha256);
    assert_eq!(back.stored_at, rec.stored_at);
    assert_eq!(back.note, rec.note);

    assert!(load_trust_record(None).unwrap().is_none());
    assert_eq!(
        load_trust_record(Some("nope")).unwrap_err(),
        VerifyError::ManifestParseError
    );
}

// Leaf pinning is decided on the end-entity certificate alone: a leaf set
// holding an issuer's fingerprint matches nothing.
#[test]
fn leaf_match_ignores_issuer_certificates() {
    let chain = vec![b"leaf".to_vec(), TEST_CERT_DER.to_vec()];
    let leaf = pin_set(&[CERT_DER_SHA256]);
    assert_eq!(
        evaluate_chain(&chain, &leaf, &PinSet::new(), false, true),
        Ok(ChainDecision::NeedsOperator { consensus_failed: false, leaf_mismatch: true })
    );
}

// Two spellings of one digest in the manifest — lower-case with colons and
// upper-case plain — land as the one canonical pin.
#[test]
fn manifest_collapses_equivalent_spellings() {
    let lower_colons = (0..32).map(|_| "ab").collect::<Vec<_>>().join(":");
    let upper = "AB".repeat(32);
    let manifest = format!(r#"{{"leaf_sha256": ["{}", "{}"]}}"#, lower_colons, upper);
    let m = load_verify_format(&manifest).unwrap();
    assert!(m.leaf.contains_exact(&upper));
    assert!(!m.leaf.is_empty());
}

// The expected leaf set is exactly the manifest's pins with the flat files'.
#[test]
fn expected_pins_union_manifest_and_files() {
    let manifest_pin = "11".repeat(32);
    let file_pin = "22".repeat(32);
    let manifest = format!(r#"{{"leaf_sha256": ["{}"]}}"#, manifest_pin);
    let files = vec![("pins.txt".to_string(), format!("{}\n", file_pin))];
    let set = load_expected_pins(Some(&manifest), &files).unwrap();
    assert!(set.contains_exact(&manifest_pin));
    assert!(set.contains_exact(&file_pin));
    assert!(!set.contains_exact(&"33".repeat(32)));
}
