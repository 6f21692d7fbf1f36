use ciborium::value::Value;
use coset::iana;
use coset::{CoseSign1Builder, Header, HeaderBuilder, TaggedCborSerializable};

use c2pa_assets::cose::certificate::{check_cert, is_valid_at, read_certificate};
use c2pa_assets::cose::certificate_info::CertificateInfo;
use c2pa_assets::cose::ocsp::{
    check_ocsp_status, ocsp_source, OcspFindings, OcspResponse, OcspSource,
};
use c2pa_assets::cose::raw_signature::{validator_for_signing_alg, Ed25519Validator};
use c2pa_assets::cose::sign1::{
    find_timestamp, get_cose_sign1, get_ocsp_der, get_sign_cert, get_sign_certs, get_signing_alg,
    get_unprotected_header_certs, SigningAlg,
};
use c2pa_assets::cose::status::{LogItem, StatusTracker, ValidationStatus};
use c2pa_assets::cose::verify::{
    check_sig, check_trust, dump_cert_chain, extract_subject_from_cert, get_signing_info,
    get_signing_time, get_timestamp_info, pick_subject, signature_input, timestamp_request,
    trust_input, tst_info_result_to_timestamp, validate_with_cert, verify_cose, verify_cose_async,
    Findings, TimeStamp,
};
use c2pa_assets::cose::x509::{Moment, Validity};
use c2pa_assets::error::Error;

// Certificates, encoded by hand.

fn tlv(tag: u8, content: &[u8]) -> Vec<u8> {
    let mut out = vec![tag];
    if content.len() < 0x80 {
        out.push(content.len() as u8);
    } else if content.len() < 0x100 {
        out.extend([0x81, content.len() as u8]);
    } else {
        out.push(0x82);
        out.extend((content.len() as u16).to_be_bytes());
    }
    out.extend(content);
    out
}

fn sequence(parts: &[Vec<u8>]) -> Vec<u8> {
    tlv(0x30, &parts.concat())
}

fn oid(arcs: &[u64]) -> Vec<u8> {
    let mut content = vec![(arcs[0] * 40 + arcs[1]) as u8];
    for arc in &arcs[2..] {
        let mut digits = vec![(arc % 128) as u8];
        let mut rest = arc / 128;
        while rest > 0 {
            digits.insert(0, (rest % 128) as u8 | 0x80);
            rest /= 128;
        }
        content.extend(digits);
    }
    tlv(0x06, &content)
}

fn name(organizations: &[&str]) -> Vec<u8> {
    let parts: Vec<Vec<u8>> = organizations
        .iter()
        .map(|text| {
            let attribute = sequence(&[oid(&[2, 5, 4, 10]), tlv(0x0c, text.as_bytes())]);
            tlv(0x31, &attribute)
        })
        .collect();
    sequence(&parts)
}

fn bit_string(bytes: &[u8]) -> Vec<u8> {
    let mut content = vec![0];
    content.extend(bytes);
    tlv(0x03, &content)
}

type Extension = (Vec<u64>, bool, Vec<u8>);

const ED25519: [u64; 4] = [1, 3, 101, 112];
const RSA: [u64; 7] = [1, 2, 840, 113549, 1, 1, 1];
const PSS: [u64; 7] = [1, 2, 840, 113549, 1, 1, 10];
const MGF1: [u64; 7] = [1, 2, 840, 113549, 1, 1, 8];
const EC: [u64; 6] = [1, 2, 840, 10045, 2, 1];
const SHA256: [u64; 9] = [2, 16, 840, 1, 101, 3, 4, 2, 1];
const SHA1: [u64; 6] = [1, 3, 14, 3, 2, 26];
const EMAIL: [u64; 9] = [1, 3, 6, 1, 5, 5, 7, 3, 4];
const TIME_STAMPING: [u64; 9] = [1, 3, 6, 1, 5, 5, 7, 3, 8];
const OCSP_SIGNING: [u64; 9] = [1, 3, 6, 1, 5, 5, 7, 3, 9];

fn authority_key() -> Extension {
    (vec![2, 5, 29, 35], false, sequence(&[tlv(0x80, &[1, 2, 3, 4])]))
}

fn subject_key() -> Extension {
    (vec![2, 5, 29, 14], false, tlv(0x04, &[5, 6, 7, 8]))
}

/// The usages by the bits of their first octet.
fn key_usage(bits: u8) -> Extension {
    (vec![2, 5, 29, 15], true, tlv(0x03, &[0, bits]))
}

fn extended_usage(usages: &[&[u64]]) -> Extension {
    let usages: Vec<Vec<u8>> = usages.iter().map(|usage| oid(usage)).collect();
    (vec![2, 5, 29, 37], false, sequence(&usages))
}

fn authority() -> Extension {
    (vec![2, 5, 29, 19], true, sequence(&[tlv(0x01, &[0xff])]))
}

const DIGITAL_SIGNATURE: u8 = 0x80;
const NON_REPUDIATION: u8 = 0x40;
const KEY_CERT_SIGN: u8 = 0x04;

struct Certificate {
    version: u8,
    signature: Vec<u64>,
    signature_parameters: Option<Vec<u8>>,
    key: Vec<u64>,
    key_parameters: Option<Vec<u8>>,
    key_data: Vec<u8>,
    issuer: Vec<&'static str>,
    subject: Vec<&'static str>,
    unique_id: bool,
    extensions: Vec<Extension>,
}

/// A certificate that is accepted.
fn sound() -> Certificate {
    Certificate {
        version: 2,
        signature: ED25519.to_vec(),
        signature_parameters: None,
        key: ED25519.to_vec(),
        key_parameters: None,
        key_data: vec![7; 32],
        issuer: vec!["An Authority"],
        subject: vec!["A Department", "A Company"],
        unique_id: false,
        extensions: vec![
            authority_key(),
            key_usage(DIGITAL_SIGNATURE),
            extended_usage(&[&EMAIL]),
        ],
    }
}

fn algorithm(id: &[u64], parameters: &Option<Vec<u8>>) -> Vec<u8> {
    sequence(&[oid(id), parameters.clone().unwrap_or_default()])
}

impl Certificate {
    fn key_info(&self) -> Vec<u8> {
        sequence(&[algorithm(&self.key, &self.key_parameters), bit_string(&self.key_data)])
    }

    fn der(&self) -> Vec<u8> {
        let signature = algorithm(&self.signature, &self.signature_parameters);
        let validity =
            sequence(&[tlv(0x17, b"200101000000Z"), tlv(0x17, b"400101000000Z")]);
        let extensions: Vec<Vec<u8>> = self
            .extensions
            .iter()
            .map(|(id, critical, value)| {
                let flag = if *critical { tlv(0x01, &[0xff]) } else { Vec::new() };
                sequence(&[oid(id), flag, tlv(0x04, value)])
            })
            .collect();
        let tbs = sequence(&[
            tlv(0xa0, &tlv(0x02, &[self.version])),
            tlv(0x02, &[0x12, 0x34, 0x56]),
            signature.clone(),
            name(&self.issuer),
            validity,
            name(&self.subject),
            self.key_info(),
            if self.unique_id { tlv(0x81, &[0, 1]) } else { Vec::new() },
            tlv(0xa3, &sequence(&extensions)),
        ]);
        sequence(&[tbs, signature, bit_string(&[9; 64])])
    }
}

/// An RSA key with a modulus of the given length in bytes.
fn rsa_key(len: usize) -> Vec<u8> {
    let mut modulus = vec![0];
    modulus.extend(vec![0xc5; len]);
    sequence(&[tlv(0x02, &modulus), tlv(0x02, &[1, 0, 1])])
}

/// The parameters of an RSASSA-PSS signature with the given hashes.
fn pss_parameters(hash: &[u64], mask_hash: &[u64]) -> Vec<u8> {
    let mask = sequence(&[oid(&MGF1), sequence(&[oid(mask_hash), tlv(0x05, &[])])]);
    sequence(&[
        tlv(0xa0, &sequence(&[oid(hash), tlv(0x05, &[])])),
        tlv(0xa1, &mask),
        tlv(0xa2, &tlv(0x02, &[32])),
    ])
}

/// A moment within the validity of the certificates, in 2030.
const NOW: i64 = 1_893_456_000;

/// A moment after it, in 2050.
const LATER: i64 = 2_524_608_000;

fn log() -> StatusTracker {
    StatusTracker::new(false)
}

fn check(certificate: &Certificate) -> (Result<(), Error>, Option<&'static str>) {
    let mut log = log();
    let r = check_cert(&certificate.der(), true, &mut log, None, NOW);
    (r, log.logged_items.first().map(|item| item.description))
}

#[test]
fn sound_certificates_are_accepted() {
    assert_eq!(check(&sound()), (Ok(()), None));
    let rsa = Certificate {
        signature: PSS.to_vec(),
        signature_parameters: Some(pss_parameters(&SHA256, &SHA256)),
        key: RSA.to_vec(),
        key_parameters: Some(tlv(0x05, &[])),
        key_data: rsa_key(256),
        ..sound()
    };
    assert_eq!(check(&rsa), (Ok(()), None));
    let curve = Certificate {
        key: EC.to_vec(),
        key_parameters: Some(oid(&[1, 2, 840, 10045, 3, 1, 7])),
        ..sound()
    };
    assert_eq!(check(&curve), (Ok(()), None));
    let ca = Certificate {
        extensions: vec![
            authority(),
            authority_key(),
            subject_key(),
            key_usage(DIGITAL_SIGNATURE | KEY_CERT_SIGN),
        ],
        ..sound()
    };
    assert_eq!(check(&ca), (Ok(()), None));
    let repudiation = Certificate {
        extensions: vec![
            authority_key(),
            key_usage(NON_REPUDIATION),
            extended_usage(&[&TIME_STAMPING]),
        ],
        ..sound()
    };
    assert_eq!(check(&repudiation), (Ok(()), None));
}

#[test]
fn test_cert_algorithms() {
    let ecdsa = |hash: u64, curve: &[u64]| Certificate {
        signature: vec![1, 2, 840, 10045, 4, 3, hash],
        key: EC.to_vec(),
        key_parameters: Some(oid(curve)),
        ..sound()
    };
    let mut validation_log = log();
    let es256_cert = ecdsa(2, &[1, 2, 840, 10045, 3, 1, 7]);
    let es384_cert = ecdsa(3, &[1, 3, 132, 0, 34]);
    let es512_cert = ecdsa(4, &[1, 3, 132, 0, 35]);
    let rsa_pss256_cert = Certificate {
        signature: PSS.to_vec(),
        signature_parameters: Some(pss_parameters(&SHA256, &SHA256)),
        key: PSS.to_vec(),
        key_parameters: Some(pss_parameters(&SHA256, &SHA256)),
        key_data: rsa_key(512),
        ..sound()
    };
    for certificate in [es256_cert, es384_cert, es512_cert, rsa_pss256_cert] {
        let der_bytes = certificate.der();
        assert!(check_cert(&der_bytes, true, &mut validation_log, None, NOW).is_ok());
    }
}

#[test]
fn expired_certificates_are_rejected() {
    let der = sound().der();
    let mut tracker = log();
    assert_eq!(
        check_cert(&der, true, &mut tracker, None, LATER),
        Err(Error::CoseCertExpiration)
    );
    assert_eq!(
        tracker.logged_items[0].validation_status,
        Some(ValidationStatus::SigningCredentialExpired)
    );
    // the time of signing counts where it is known
    assert_eq!(check_cert(&der, true, &mut log(), Some(NOW), LATER), Ok(()));
    assert_eq!(
        check_cert(&der, true, &mut log(), Some(LATER), NOW),
        Err(Error::CoseCertExpiration)
    );
}

#[test]
fn certificates_are_valid_between_two_times() {
    let der = sound().der();
    let from = 1_577_836_800;
    let to = 2_208_988_800;
    let validity = read_certificate(&der).unwrap().validity;
    assert_eq!(validity.not_before, Moment { seconds: from, nanos: 0 });
    assert_eq!(validity.not_after, Moment { seconds: to, nanos: 0 });
    let at = |time| check_cert(&der, true, &mut log(), Some(time), NOW);
    assert_eq!(at(from), Ok(()));
    assert_eq!(at(to), Ok(()));
    assert_eq!(at(from - 1), Err(Error::CoseCertExpiration));
    assert_eq!(at(to + 1), Err(Error::CoseCertExpiration));
    // the years that have more than four digits are no times
    let mut tracker = log();
    let expired = Err(Error::CoseCertExpiration);
    assert_eq!(at(253_402_300_799), expired);
    assert_eq!(at(-377_705_116_800), expired);
    for time in [253_402_300_800, -377_705_116_801, i64::MAX, i64::MIN] {
        assert_eq!(
            check_cert(&der, true, &mut tracker, Some(time), NOW),
            Err(Error::CoseInvalidCert)
        );
    }
    assert!(tracker.logged_items.is_empty());
    // parts of a second count
    let late = Validity { not_before: Moment { seconds: from, nanos: 1 }, ..validity };
    assert!(is_valid_at(validity, from) && !is_valid_at(late, from) && is_valid_at(late, from + 1));
}

#[test]
fn unreadable_certificates_are_rejected() {
    let mut tracker = log();
    assert_eq!(
        check_cert(b"no certificate", true, &mut tracker, None, NOW),
        Err(Error::CoseInvalidCert)
    );
    assert_eq!(tracker.logged_items[0].description, "certificate could not be parsed");
}

#[test]
fn other_certificates_are_rejected() {
    let invalid = Err(Error::CoseInvalidCert);
    let rejected = |certificate: Certificate, description: &'static str| {
        assert_eq!(check(&certificate), (Err(Error::CoseInvalidCert), Some(description)));
    };
    rejected(Certificate { version: 1, ..sound() }, "certificate version incorrect");
    rejected(
        Certificate { signature: vec![1, 2, 840, 113549, 1, 1, 5], ..sound() },
        "certificate algorithm not supported",
    );
    rejected(
        Certificate { signature: PSS.to_vec(), ..sound() },
        "certificate missing algorithm parameters",
    );
    rejected(
        Certificate {
            signature: PSS.to_vec(),
            signature_parameters: Some(pss_parameters(&SHA256, &SHA1)),
            ..sound()
        },
        "certificate algorithm error",
    );
    rejected(
        Certificate {
            signature: PSS.to_vec(),
            signature_parameters: Some(pss_parameters(&SHA1, &SHA1)),
            ..sound()
        },
        "certificate hash algorithm not supported",
    );
    let malformed = Certificate {
        signature: PSS.to_vec(),
        signature_parameters: Some(sequence(&[tlv(0xa1, &oid(&SHA256))])),
        ..sound()
    };
    assert_eq!(check(&malformed), (invalid, None));
    rejected(
        Certificate {
            key: EC.to_vec(),
            key_parameters: Some(oid(&[1, 3, 132, 0, 10])),
            ..sound()
        },
        "certificate unsupported EC curve",
    );
    assert_eq!(check(&Certificate { key: EC.to_vec(), ..sound() }), (invalid, None));
    rejected(
        Certificate { key: RSA.to_vec(), key_data: rsa_key(128), ..sound() },
        "certificate key length too short",
    );
    let no_key = Certificate { key: RSA.to_vec(), key_data: vec![1, 2, 3], ..sound() };
    assert_eq!(check(&no_key), (invalid, None));
    let ca = || {
        vec![authority(), authority_key(), subject_key(), key_usage(DIGITAL_SIGNATURE)]
    };
    rejected(
        Certificate {
            issuer: vec!["Myself"],
            subject: vec!["Myself"],
            extensions: ca(),
            ..sound()
        },
        "certificate issuer and subject cannot be the same {self-signed disallowed}",
    );
    rejected(
        Certificate { unique_id: true, ..sound() },
        "certificate issuer/subject unique ids are not allowed",
    );
    let with_usages = |usages: &[&[u64]]| Certificate {
        extensions: vec![
            authority_key(),
            key_usage(DIGITAL_SIGNATURE),
            extended_usage(usages),
        ],
        ..sound()
    };
    rejected(with_usages(&[&[2, 5, 29, 37, 0]]), "certificate 'any' EKU not allowed");
    rejected(with_usages(&[&TIME_STAMPING, &OCSP_SIGNING]), "certificate invalid set of EKUs");
    rejected(with_usages(&[&EMAIL, &OCSP_SIGNING]), "certificate invalid set of EKUs");
    let with = |extensions: Vec<Extension>| Certificate { extensions, ..sound() };
    rejected(
        with(vec![
            authority_key(),
            key_usage(DIGITAL_SIGNATURE | KEY_CERT_SIGN),
            extended_usage(&[&EMAIL]),
        ]),
        "certificate missing digitalSignature EKU",
    );
    let incorrect = "certificate params incorrect";
    rejected(
        with(vec![key_usage(DIGITAL_SIGNATURE), extended_usage(&[&EMAIL])]),
        incorrect,
    );
    rejected(with(vec![authority_key(), extended_usage(&[&EMAIL])]), incorrect);
    rejected(with(vec![authority_key(), key_usage(DIGITAL_SIGNATURE)]), incorrect);
    rejected(
        with(vec![authority(), authority_key(), key_usage(DIGITAL_SIGNATURE)]),
        incorrect,
    );
    let unknown = |critical| (vec![1, 2, 3, 4], critical, vec![5, 0]);
    let mut more = sound();
    more.extensions.push(unknown(false));
    assert_eq!(check(&more), (Ok(()), None));
    more.extensions.push(unknown(true));
    rejected(more, incorrect);
}

#[test]
fn usages_must_be_allowed() {
    let der = sound().der();
    let usage = read_certificate(&der).unwrap().usage.unwrap().unwrap();
    assert!(usage.email_protection && !usage.any && !usage.server_auth);
    let mut tracker = log();
    assert_eq!(
        check_cert(&der, false, &mut tracker, None, NOW),
        Err(Error::CoseInvalidCert)
    );
    assert_eq!(tracker.logged_items[0].description, "certificate missing required EKU");
}

// Signatures.

fn cose(protected: Header, unprotected: Header) -> Vec<u8> {
    CoseSign1Builder::new()
        .protected(protected)
        .unprotected(unprotected)
        .signature(vec![1, 2, 3])
        .build()
        .to_tagged_vec()
        .unwrap()
}

fn ed25519() -> HeaderBuilder {
    HeaderBuilder::new().algorithm(iana::Algorithm::EdDSA)
}

fn chain(certs: &[Vec<u8>]) -> Value {
    Value::Array(certs.iter().map(|der| Value::Bytes(der.clone())).collect())
}

/// A signature with a chain of two certificates.
fn signed() -> Vec<u8> {
    let certs = [sound().der(), Certificate { subject: vec!["Other"], ..sound() }.der()];
    let protected = ed25519().text_value("x5chain".to_string(), chain(&certs)).build();
    cose(protected, Header::default())
}

#[test]
fn undecodable_signatures_are_logged() {
    let mut tracker = log();
    assert_eq!(
        get_cose_sign1(b"not CBOR", b"data", &mut tracker),
        Err(Error::CoseSignature)
    );
    assert_eq!(tracker.logged_items.len(), 1);
    assert_eq!(tracker.logged_items[0].err_val, Some(Error::InvalidCoseSignature));
    assert_eq!(
        tracker.logged_items[0].validation_status,
        Some(ValidationStatus::ClaimSignatureMismatch)
    );
    let sign1 = get_cose_sign1(&signed(), b"data", &mut tracker).unwrap();
    assert_eq!(tracker.logged_items.len(), 1);
    assert_eq!(sign1.payload, b"data");
    assert_eq!(sign1.core.signature, [1, 2, 3]);
}

#[test]
fn signing_algorithms() {
    let alg = |header: Header| {
        let bytes = cose(header, Header::default());
        get_signing_alg(&get_cose_sign1(&bytes, b"", &mut log()).unwrap())
    };
    let numbered = |a: iana::Algorithm| alg(HeaderBuilder::new().algorithm(a).build());
    assert_eq!(numbered(iana::Algorithm::PS512), Ok(SigningAlg::Ps512));
    assert_eq!(numbered(iana::Algorithm::PS384), Ok(SigningAlg::Ps384));
    assert_eq!(numbered(iana::Algorithm::PS256), Ok(SigningAlg::Ps256));
    assert_eq!(numbered(iana::Algorithm::ES512), Ok(SigningAlg::Es512));
    assert_eq!(numbered(iana::Algorithm::ES384), Ok(SigningAlg::Es384));
    assert_eq!(numbered(iana::Algorithm::ES256), Ok(SigningAlg::Es256));
    assert_eq!(numbered(iana::Algorithm::EdDSA), Ok(SigningAlg::Ed25519));
    let unsupported = Err(Error::CoseSignatureAlgorithmNotSupported);
    assert_eq!(numbered(iana::Algorithm::RS256), unsupported);
    assert_eq!(alg(Header::default()), unsupported);
    let named = |text: &str| {
        alg(Header { alg: Some(coset::Algorithm::Text(text.to_string())), ..Header::default() })
    };
    assert_eq!(named("ps256"), Ok(SigningAlg::Ps256));
    assert_eq!(named("ed25519"), Ok(SigningAlg::Ed25519));
    assert_eq!(named("rot13"), unsupported);
}

#[test]
fn certificates_in_headers() {
    let certs = |protected: Header, unprotected: Header| {
        let bytes = cose(protected, unprotected);
        get_sign_certs(&get_cose_sign1(&bytes, b"", &mut log()).unwrap())
    };
    let text = |value: Value| {
        HeaderBuilder::new().text_value("x5chain".to_string(), value).build()
    };
    let numbered = |value: Value| HeaderBuilder::new().value(33, value).build();
    let none = Header::default;
    let one = vec![vec![4, 5]];
    let two = vec![vec![4, 5], vec![6]];
    assert_eq!(certs(text(Value::Bytes(vec![4, 5])), none()), Ok(one.clone()));
    assert_eq!(certs(numbered(chain(&two)), none()), Ok(two.clone()));
    assert_eq!(certs(none(), text(chain(&two))), Ok(two.clone()));
    // what is no byte string is passed over
    let mixed = Value::Array(vec![Value::Bool(true), Value::Bytes(vec![4, 5])]);
    assert_eq!(certs(none(), text(mixed)), Ok(one));
    // in one header only
    assert_eq!(certs(text(chain(&two)), text(chain(&two))), Err(Error::CoseVerifier));
    assert_eq!(certs(none(), none()), Err(Error::CoseX5ChainMissing));
    // the number stands for a chain in the protected header alone
    assert_eq!(certs(none(), numbered(chain(&two))), Err(Error::CoseX5ChainMissing));
    assert_eq!(certs(text(chain(&[])), none()), Err(Error::CoseX5ChainMissing));
    assert_eq!(certs(none(), text(chain(&[]))), Err(Error::CoseMissingKey));
    assert_eq!(certs(text(Value::Bool(true)), none()), Err(Error::CoseX5ChainMissing));
    let bytes = cose(none(), text(chain(&two)));
    let sign1 = get_cose_sign1(&bytes, b"", &mut log()).unwrap();
    assert_eq!(get_sign_cert(&sign1), Ok(vec![4, 5]));
    assert_eq!(get_unprotected_header_certs(&sign1), Ok(two));
}

fn with_ocsp(value: Value) -> Vec<u8> {
    let pairs = vec![
        (Value::Text("other".to_string()), Value::Bool(true)),
        (Value::Text("ocspVals".to_string()), value),
    ];
    let unprotected =
        HeaderBuilder::new().text_value("rVals".to_string(), Value::Map(pairs)).build();
    let protected =
        ed25519().text_value("x5chain".to_string(), Value::Bytes(sound().der())).build();
    cose(protected, unprotected)
}

#[test]
fn test_stapled_ocsp() {
    let ocsp_rsp_data: Vec<u8> = (0..=255).collect();
    let cose_bytes = with_ocsp(chain(&[ocsp_rsp_data.clone()]));
    let cose_sign1 = get_cose_sign1(&cose_bytes, b"claim", &mut log()).unwrap();
    let ocsp_stapled = get_ocsp_der(&cose_sign1).unwrap();
    assert_eq!(ocsp_rsp_data, ocsp_stapled.as_slice());
}

#[test]
fn stapled_responses() {
    let response = |value: Value| {
        get_ocsp_der(&get_cose_sign1(&with_ocsp(value), b"", &mut log()).unwrap())
    };
    assert_eq!(response(chain(&[vec![1, 2], vec![3]])), Some(vec![1, 2]));
    assert_eq!(response(chain(&[])), None);
    assert_eq!(response(Value::Bytes(vec![1, 2])), None);
    assert_eq!(get_ocsp_der(&get_cose_sign1(&signed(), b"", &mut log()).unwrap()), None);
}

#[test]
fn sources_of_responses() {
    let source = |bytes: &[u8], fetch: Result<bool, Error>| {
        ocsp_source(bytes, b"data", fetch, &mut log())
    };
    let stapled = with_ocsp(chain(&[vec![1, 2]]));
    assert_eq!(source(&stapled, Ok(true)), Ok(OcspSource::Stapled(vec![1, 2])));
    let certs = get_sign_certs(&get_cose_sign1(&signed(), b"", &mut log()).unwrap()).unwrap();
    assert_eq!(source(&signed(), Ok(true)), Ok(OcspSource::Fetched(certs)));
    assert_eq!(source(&signed(), Ok(false)), Ok(OcspSource::Unused));
    assert_eq!(source(&signed(), Err(Error::NotFound)), Ok(OcspSource::Unused));
    assert_eq!(source(b"", Ok(true)), Err(Error::CoseSignature));
}

#[test]
fn responses_are_used() {
    let stapled = OcspSource::Stapled(vec![1, 2]);
    let stamp = Ok(TimeStamp { seconds: NOW, nanos: 0 });
    let item = LogItem {
        label: "OCSP",
        description: "certificate revoked",
        function: "check_ocsp",
        validation_status: None,
        err_val: None,
    };
    let findings = |certs: Option<Vec<Vec<u8>>>, revoked: bool| OcspFindings {
        response: Some(OcspResponse { revoked, ocsp_certs: certs }),
        logged_items: vec![item.clone()],
    };
    let status = |source: &OcspSource, stamp: &Result<TimeStamp, Error>, f: OcspFindings| {
        let mut tracker = log();
        let r = check_ocsp_status(source, stamp, &f, true, LATER, &mut tracker);
        (r, tracker.logged_items.len())
    };
    let responder = || Some(vec![sound().der()]);
    // a stapled response counts at the time of signing, which must be known
    assert_eq!(status(&stapled, &stamp, findings(responder(), false)), (Ok(true), 1));
    let unstamped = Err(Error::NotFound);
    assert_eq!(status(&stapled, &unstamped, findings(responder(), false)), (Ok(false), 0));
    // a fetched one now
    let fetched = OcspSource::Fetched(vec![vec![1]]);
    assert_eq!(
        status(&fetched, &stamp, findings(responder(), false)),
        (Err(Error::CoseCertExpiration), 2)
    );
    assert_eq!(status(&fetched, &stamp, findings(responder(), true)), (Ok(true), 1));
    assert_eq!(status(&fetched, &stamp, findings(None, false)), (Ok(true), 1));
    let malformed = OcspFindings { response: None, logged_items: vec![item.clone()] };
    assert_eq!(status(&fetched, &stamp, malformed), (Ok(false), 1));
    assert_eq!(status(&OcspSource::Unused, &stamp, findings(None, false)), (Ok(false), 0));
}

#[test]
fn test_no_timestamp() {
    let protected = HeaderBuilder::new()
        .algorithm(iana::Algorithm::PS256)
        .text_value("x5chain".to_string(), Value::Bytes(sound().der()))
        .build();
    let cose_bytes = cose(protected, Header::default());
    let cose_sign1 = get_cose_sign1(&cose_bytes, b"claim", &mut log()).unwrap();
    let time_stamp = match timestamp_request(&cose_bytes, &cose_sign1) {
        Ok(_) => panic!("Did not expect a time stamp"),
        Err(err) => get_timestamp_info(Err(err)),
    };
    let signing_time = get_signing_time(&time_stamp);
    assert_eq!(signing_time, None);
}

#[test]
fn time_stamps() {
    let mut tracker = log();
    let plain = signed();
    let sign1 = get_cose_sign1(&plain, b"", &mut tracker).unwrap();
    assert_eq!(find_timestamp(&sign1), None);
    assert_eq!(timestamp_request(&plain, &sign1), Err(Error::NotFound));
    let token = Value::Array(vec![Value::Bytes(vec![9, 9])]);
    let unprotected = HeaderBuilder::new()
        .text_value("first".to_string(), Value::Bool(false))
        .text_value("sigTst".to_string(), token)
        .build();
    let stamped = cose(ed25519().build(), unprotected);
    let sign1 = get_cose_sign1(&stamped, b"", &mut tracker).unwrap();
    assert_eq!(find_timestamp(&sign1), Some(1));
    // an array of one byte string of two bytes
    assert_eq!(timestamp_request(&stamped, &sign1), Ok(vec![0x81, 0x42, 9, 9]));

    let first = TimeStamp { seconds: 10, nanos: 5 };
    let second = TimeStamp { seconds: 20, nanos: 0 };
    assert_eq!(get_timestamp_info(Ok(vec![first, second])), Ok(first));
    assert_eq!(get_timestamp_info(Ok(Vec::new())), Err(Error::NotFound));
    assert_eq!(
        get_timestamp_info(Err(Error::TimeStampInvalidData)),
        Err(Error::TimeStampInvalidData)
    );
    assert_eq!(tst_info_result_to_timestamp(&Ok(first)), Some(10));
    assert_eq!(tst_info_result_to_timestamp(&Err(Error::NotFound)), None);
    assert_eq!(get_signing_time(&Ok(first)), Some(first));
    assert_eq!(get_signing_time(&Err(Error::NotFound)), None);
}

fn findings() -> Findings {
    Findings {
        time_stamp: Err(Error::NotFound),
        now: NOW,
        usage_allowed: true,
        verify_trust: Ok(true),
        trusted: Ok(true),
        is_der_signature: false,
        signature_matches: true,
    }
}

#[test]
fn matching_signatures_are_validated() {
    let bytes = signed();
    let mut tracker = log();
    let validators = vec![SigningAlg::Ed25519];
    let info =
        verify_cose(&bytes, b"data", true, &validators, &findings(), &mut tracker).unwrap();
    assert!(info.validated);
    assert_eq!(info.alg, Some(SigningAlg::Ed25519));
    assert_eq!(info.issuer_org.as_deref(), Some("A Company"));
    assert_eq!(info.cert_serial_number, Some(vec![0x12, 0x34, 0x56]));
    assert_eq!(info.date, None);
    assert_eq!(info.revocation_status, Some(true));
    let pem = String::from_utf8(info.cert_chain).unwrap();
    assert_eq!(pem.matches("-----BEGIN CERTIFICATE-----").count(), 2);
    assert_eq!(tracker.logged_items.len(), 1);
    assert_eq!(
        tracker.logged_items[0].validation_status,
        Some(ValidationStatus::SigningCredentialTrusted)
    );
    // the other verification tells the same but for the revocation status
    let stamp = TimeStamp { seconds: NOW, nanos: 0 };
    let stamped = Findings { time_stamp: Ok(stamp), ..findings() };
    let other = verify_cose_async(&bytes, b"data", true, &stamped, &mut log()).unwrap();
    assert!(other.validated);
    assert_eq!(other.date, Some(stamp));
    assert_eq!(other.revocation_status, None);
}

#[test]
fn other_signatures_are_not_validated() {
    let bytes = signed();
    let validators = vec![SigningAlg::Ed25519];
    let verify = |f: Findings| {
        let mut tracker = log();
        let r = verify_cose(&bytes, b"data", true, &validators, &f, &mut tracker);
        (r.map(|info| info.validated), tracker.logged_items.last().map(|item| item.description))
    };
    let mismatch = Findings { signature_matches: false, ..findings() };
    assert_eq!(verify(mismatch).0, Ok(false));
    let expired = Findings { now: LATER, ..findings() };
    assert_eq!(verify(expired), (Err(Error::CoseCertExpiration), Some("certificate expired")));
    let untrusted = Findings { trusted: Ok(false), ..findings() };
    assert_eq!(
        verify(untrusted),
        (Err(Error::CoseCertUntrusted), Some("signing certificate untrusted"))
    );
    let stamped = |e: Error| Findings { time_stamp: Err(e), ..findings() };
    assert_eq!(
        verify(stamped(Error::TimeStampInvalidData)),
        (Err(Error::CoseTimeStampMismatch), Some("timestamp did not match signed data"))
    );
    assert_eq!(
        verify(stamped(Error::CoseTimeStampValidity)),
        (Err(Error::CoseTimeStampValidity), Some("timestamp certificate outside of validity"))
    );
    assert_eq!(
        verify(stamped(Error::TimeStampError)),
        (Err(Error::CoseInvalidTimeStamp), Some("error parsing timestamp"))
    );
    // the certificates are not checked where that is not asked for
    let unchecked = Findings { now: LATER, trusted: Ok(false), ..findings() };
    let info =
        verify_cose(&bytes, b"data", false, &validators, &unchecked, &mut log()).unwrap();
    assert!(info.validated);
    // no validator for the algorithm
    assert_eq!(
        verify_cose(&bytes, b"data", true, &Vec::new(), &findings(), &mut log()),
        Err(Error::CoseSignatureAlgorithmNotSupported)
    );
    // no algorithm
    let unnamed = cose(Header::default(), Header::default());
    let mut tracker = log();
    assert_eq!(
        verify_cose(&unnamed, b"data", true, &validators, &findings(), &mut tracker),
        Err(Error::CoseSignatureAlgorithmNotSupported)
    );
    assert_eq!(
        tracker.logged_items[0].validation_status,
        Some(ValidationStatus::AlgorithmUnsupported)
    );
    // an ECDSA signature in DER
    let ecdsa = HeaderBuilder::new()
        .algorithm(iana::Algorithm::ES256)
        .text_value("x5chain".to_string(), Value::Bytes(sound().der()))
        .build();
    let der = Findings { is_der_signature: true, ..findings() };
    let all = vec![SigningAlg::Es256];
    assert_eq!(
        verify_cose(&cose(ecdsa, Header::default()), b"", true, &all, &der, &mut log()),
        Err(Error::CoseSignatureAlgorithmNotSupported)
    );
}

#[test]
fn time_stamp_errors_may_be_passed_over() {
    let bytes = signed();
    let f = Findings { time_stamp: Err(Error::TimeStampInvalidData), ..findings() };
    let mut lenient = StatusTracker::new(false);
    assert!(verify_cose_async(&bytes, b"", true, &f, &mut lenient).unwrap().validated);
    assert_eq!(lenient.logged_items[0].description, "timestamp message imprint did not match");
    let mut strict = StatusTracker::new(true);
    assert_eq!(
        verify_cose_async(&bytes, b"", true, &f, &mut strict),
        Err(Error::CoseTimeStampMismatch)
    );
}

#[test]
fn what_signatures_are_made_over() {
    let bytes = signed();
    let input = signature_input(&bytes, b"data", b"more").unwrap();
    assert_eq!(input.signature, [1, 2, 3]);
    assert_eq!(input.public_key, sound().key_info());
    let mut decoded = coset::CoseSign1::from_tagged_slice(&bytes).unwrap();
    decoded.payload = Some(b"data".to_vec());
    assert_eq!(input.tbs, decoded.tbs_data(b"more"));
    // an array of four that starts with the context
    assert_eq!(&input.tbs[..12], b"\x84\x6aSignature1");
    assert_eq!(signature_input(b"", b"data", b"more"), None);
}

#[test]
fn what_trust_is_found_out_from() {
    let bytes = signed();
    let stamp = Ok(TimeStamp { seconds: NOW, nanos: 7 });
    let input = trust_input(&bytes, b"data", true, &Ok(true), &stamp).unwrap();
    let signer = sound().der();
    assert_eq!(input.cert, signer);
    assert_eq!(input.chain, [Certificate { subject: vec!["Other"], ..sound() }.der()]);
    assert_eq!(input.signing_time, Some(NOW));
    let unknown = trust_input(&bytes, b"data", true, &Ok(true), &Err(Error::NotFound)).unwrap();
    assert_eq!(unknown.signing_time, None);
    // trust is not asked for
    assert_eq!(trust_input(&bytes, b"data", false, &Ok(true), &stamp), None);
    assert_eq!(trust_input(&bytes, b"data", true, &Ok(false), &stamp), None);
    assert_eq!(trust_input(&bytes, b"data", true, &Err(Error::NotFound), &stamp), None);
    assert_eq!(trust_input(b"", b"data", true, &Ok(true), &stamp), None);
}

#[test]
fn signing_info_is_not_validated() {
    let stamp = Ok(TimeStamp { seconds: NOW, nanos: 0 });
    let info = get_signing_info(&signed(), b"data", &stamp, &mut log());
    assert!(!info.validated);
    assert_eq!(info.revocation_status, None);
    assert_eq!(info.alg, Some(SigningAlg::Ed25519));
    assert_eq!(info.date, stamp.ok());
    assert_eq!(info.issuer_org.as_deref(), Some("A Company"));
    assert!(!info.cert_chain.is_empty());
    let mut tracker = log();
    let nothing = get_signing_info(b"", b"data", &Err(Error::NotFound), &mut tracker);
    assert_eq!(nothing.alg, None);
    assert!(nothing.cert_chain.is_empty());
    assert_eq!(tracker.logged_items.len(), 1);
}

#[test]
fn subjects_of_certificates() {
    let der = sound().der();
    assert_eq!(extract_subject_from_cert(&der).unwrap(), "A Company");
    let unnamed = Certificate { subject: Vec::new(), ..sound() }.der();
    assert_eq!(extract_subject_from_cert(&unnamed), Err(Error::CoseX5ChainMissing));
    assert_eq!(pick_subject(vec![Some("a".to_string()), None]), Err(Error::CoseX5ChainMissing));
    let info = validate_with_cert(true, &der).unwrap();
    assert_eq!(info.subject, "A Company");
    assert_eq!(info.serial_number, [0x12, 0x34, 0x56]);
    assert!(validate_with_cert(false, &der).is_err());
    assert_eq!(validate_with_cert(true, &unnamed).unwrap().subject, "");
}

#[test]
fn chains_in_pem() {
    let der = sound().der();
    let pem = dump_cert_chain(&vec![der.clone()]).unwrap();
    let text = String::from_utf8(pem.clone()).unwrap();
    assert!(text.starts_with("-----BEGIN CERTIFICATE-----"));
    assert!(text.trim_end().ends_with("-----END CERTIFICATE-----"));
    let twice = dump_cert_chain(&vec![der.clone(), der]).unwrap();
    assert_eq!(twice, [pem.clone(), pem].concat());
    assert_eq!(dump_cert_chain(&vec![vec![1]]), Err(Error::UnsupportedType));
    assert_eq!(dump_cert_chain(&Vec::new()), Ok(Vec::new()));
}

#[test]
fn trust_in_certificates() {
    let check = |verify: Result<bool, Error>, trusted: Result<bool, Error>| {
        let mut tracker = log();
        let r = check_trust(verify, trusted, &mut tracker);
        (r, tracker.logged_items.first().and_then(|item| item.validation_status))
    };
    let untrusted = Some(ValidationStatus::SigningCredentialUntrusted);
    assert_eq!(check(Ok(false), Ok(false)), (Ok(()), None));
    assert_eq!(check(Err(Error::NotFound), Ok(true)), (Err(Error::NotFound), None));
    assert_eq!(
        check(Ok(true), Ok(true)),
        (Ok(()), Some(ValidationStatus::SigningCredentialTrusted))
    );
    assert_eq!(check(Ok(true), Ok(false)), (Err(Error::CoseCertUntrusted), untrusted));
    let none = Error::NotImplemented("no trust handler for this feature");
    assert_eq!(check(Ok(true), Err(none)), (Err(none), untrusted));
}

#[test]
fn forms_of_signatures() {
    assert_eq!(check_sig(true, SigningAlg::Es384), Err(Error::InvalidEcdsaSignature));
    assert_eq!(check_sig(false, SigningAlg::Es384), Ok(()));
    assert_eq!(check_sig(true, SigningAlg::Ps256), Ok(()));
    assert_eq!(validator_for_signing_alg(SigningAlg::Ed25519), Some(Ed25519Validator {}));
    assert_eq!(validator_for_signing_alg(SigningAlg::Es256), None);
}

#[test]
fn empty_certificate_info() {
    let info = CertificateInfo::default();
    assert!(!info.validated && info.cert_chain.is_empty());
    assert_eq!((info.alg, info.iat), (None, None));
}
