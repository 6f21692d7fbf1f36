//! Verification of COSE_Sign1 structures.
//!
//! What other services find out - what a time stamp says, whether a certificate is trusted, whether
//! a signature matches - comes in as arguments.

use vstd::prelude::*;

use crate::cose::certificate::{cert_rejection, check_cert, logged, verdict};
use crate::cose::sign1::{
    contents, sign1_of, sign_certs, signing_alg, timestamp_place, undecodable, parameter_cbor_of,
    tbs_of, Sign1Model,
};
use crate::cose::sign1::{
    find_timestamp, get_cose_sign1, get_sign_cert, get_sign_certs, get_signing_alg, parameter_cbor,
    to_be_signed, CoseSign1, SigningAlg,
};
use crate::cose::status::{failure, LogItem, StatusModel, StatusTracker, ValidationStatus};
use crate::cose::x509::{
    certificate_fields, certificate_organizations, certificate_pem, fields_of, organizations_of,
    pem_of, texts, CertificateFields,
};
use crate::endian::put_bytes;
use crate::error::Error;

verus! {

/// A moment, in seconds since 1970 and nanoseconds behind them.
#[derive(Clone, Copy, Debug, PartialEq, Eq, Structural)]
pub struct TimeStamp {
    pub seconds: i64,
    pub nanos: u32,
}

/// What is found out about a signature.
#[derive(Clone, Debug, PartialEq, Eq)]
pub struct ValidationInfo {
    pub alg: Option<SigningAlg>,
    pub date: Option<TimeStamp>,
    /// The serial number of the signer's certificate, most significant byte first.
    pub cert_serial_number: Option<Vec<u8>>,
    /// The organization that the signer's certificate names.
    pub issuer_org: Option<String>,
    pub validated: bool,
    /// The certificates in PEM form.
    pub cert_chain: Vec<u8>,
    pub revocation_status: Option<bool>,
}

/// What a [`ValidationInfo`] holds.
#[verifier::ext_equal]
pub struct InfoModel {
    pub alg: Option<SigningAlg>,
    pub date: Option<TimeStamp>,
    pub cert_serial_number: Option<Seq<u8>>,
    pub issuer_org: Option<Seq<char>>,
    pub validated: bool,
    pub cert_chain: Seq<u8>,
    pub revocation_status: Option<bool>,
}

impl View for ValidationInfo {
    type V = InfoModel;

    open spec fn view(&self) -> InfoModel {
        InfoModel {
            alg: self.alg,
            date: self.date,
            cert_serial_number: match self.cert_serial_number {
                Some(serial) => Some(serial@),
                None => None,
            },
            issuer_org: match self.issuer_org {
                Some(org) => Some(org@),
                None => None,
            },
            validated: self.validated,
            cert_chain: self.cert_chain@,
            revocation_status: self.revocation_status,
        }
    }
}

/// Nothing found out.
pub open spec fn no_info() -> InfoModel {
    InfoModel {
        alg: None,
        date: None,
        cert_serial_number: None,
        issuer_org: None,
        validated: false,
        cert_chain: Seq::empty(),
        revocation_status: None,
    }
}

// Certificates.

/// The PEM forms of certificates, one after the other. There is none where one cannot be read.
pub open spec fn chain_pem(certs: Seq<Seq<u8>>) -> Option<Seq<u8>>
    decreases certs.len(),
{
    if certs.len() == 0 {
        Some(Seq::empty())
    } else {
        match (chain_pem(certs.drop_last()), pem_of(certs.last())) {
            (Some(chain), Some(pem)) => Some(chain + pem),
            _ => None,
        }
    }
}

proof fn lemma_chain_pem_none(certs: Seq<Seq<u8>>, k: int)
    requires
        0 <= k <= certs.len(),
        chain_pem(certs.take(k)) is None,
    ensures
        chain_pem(certs) is None,
    decreases certs.len(),
{
    if k < certs.len() {
        assert(certs.drop_last().take(k) =~= certs.take(k));
        lemma_chain_pem_none(certs.drop_last(), k);
    } else {
        assert(certs.take(k) =~= certs);
    }
}

/// Puts certificates into PEM form, one after the other.
pub fn dump_cert_chain(certs: &Vec<Vec<u8>>) -> (r: Result<Vec<u8>, Error>)
    ensures
        match r {
            Ok(out) => chain_pem(contents(certs@)) == Some(out@),
            Err(err) => chain_pem(contents(certs@)) is None && err == Error::UnsupportedType,
        },
{
    let ghost all = contents(certs@);
    let mut out_buf: Vec<u8> = Vec::new();
    let mut i: usize = 0;
    proof {
        assert(chain_pem(all.take(0)) == Some(Seq::<u8>::empty()));
        assert(out_buf@ =~= Seq::empty());
    }
    while i < certs.len()
        invariant
            i <= certs@.len(),
            all == contents(certs@),
            chain_pem(all.take(i as int)) == Some(out_buf@),
        decreases certs@.len() - i,
    {
        proof {
            assert(all.take(i + 1).drop_last() =~= all.take(i as int));
            assert(all.take(i + 1).last() == certs@[i as int]@);
        }
        match certificate_pem(certs[i].as_slice()) {
            Some(pem) => put_bytes(&mut out_buf, pem.as_slice()),
            None => {
                proof {
                    lemma_chain_pem_none(all, i + 1);
                }
                return Err(Error::UnsupportedType);
            },
        }
        i = i + 1;
    }
    proof {
        assert(all.take(i as int) =~= all);
    }
    Ok(out_buf)
}

/// Of the organizations that a certificate names, the last, where it is text.
pub open spec fn subject_in(organizations: Seq<Option<Seq<char>>>) -> Option<Seq<char>> {
    if organizations.len() == 0 {
        None
    } else {
        organizations.last()
    }
}

/// Of the organizations that a certificate names, the last, where it is text.
pub fn pick_subject(organizations: Vec<Option<String>>) -> (r: Result<String, Error>)
    ensures
        match r {
            Ok(subject) => subject_in(texts(organizations@)) == Some(subject@),
            Err(err) => subject_in(texts(organizations@)) is None && err
                == Error::CoseX5ChainMissing,
        },
{
    let ghost all = texts(organizations@);
    let mut organizations = organizations;
    match organizations.pop() {
        Some(last) => {
            proof {
                assert(all.last() == (match last {
                    Some(text) => Some(text@),
                    None => None,
                }));
            }
            match last {
                Some(subject) => Ok(subject),
                None => Err(Error::CoseX5ChainMissing),
            }
        },
        None => Err(Error::CoseX5ChainMissing),
    }
}

/// The organization that the certificate encoded in `der` names.
pub open spec fn subject_of(der: Seq<u8>) -> Option<Seq<char>> {
    match organizations_of(der) {
        Some(organizations) => subject_in(organizations),
        None => None,
    }
}

/// The organization that a certificate names.
pub fn extract_subject_from_cert(cert_der: &[u8]) -> (r: Result<String, Error>)
    ensures
        match r {
            Ok(subject) => subject_of(cert_der@) == Some(subject@),
            Err(err) => subject_of(cert_der@) is None && err == Error::CoseX5ChainMissing,
        },
{
    match certificate_organizations(cert_der) {
        Some(organizations) => pick_subject(organizations),
        None => Err(Error::CoseX5ChainMissing),
    }
}

/// What is told of the certificate that a signature was made with.
#[derive(Clone, Debug, PartialEq, Eq)]
pub struct CertInfo {
    /// The name of the identity the certificate is issued to.
    pub subject: String,
    /// The serial number of the cert. Will be unique to the CA.
    pub serial_number: Vec<u8>,
}

/// The organization that a certificate names, or an empty text.
pub open spec fn subject_or_empty(der: Seq<u8>) -> Seq<char> {
    match subject_of(der) {
        Some(subject) => subject,
        None => Seq::empty(),
    }
}

/// What is told of the certificate `der_bytes`, where the signature matches its key.
pub fn validate_with_cert(signature_matches: bool, der_bytes: &[u8]) -> (r: Result<
    CertInfo,
    Error,
>)
    ensures
        match fields_of(der_bytes@) {
            None => r is Err && r->Err_0 == Error::CoseInvalidCert,
            Some(fields) => if !signature_matches {
                r is Err && r->Err_0 == Error::SignatureMismatch
            } else {
                r matches Ok(info) && info.subject@ == subject_or_empty(der_bytes@)
                    && info.serial_number@ == fields.serial
            },
        },
{
    let fields: CertificateFields = match certificate_fields(der_bytes) {
        Some(fields) => fields,
        None => return Err(Error::CoseInvalidCert),
    };
    if !signature_matches {
        return Err(Error::SignatureMismatch);
    }
    let subject: String = match extract_subject_from_cert(der_bytes) {
        Ok(subject) => subject,
        Err(_) => {
            let empty = String::new();
            proof {
                assert(empty@ =~= Seq::empty());
            }
            empty
        },
    };
    Ok(CertInfo { subject, serial_number: fields.serial })
}

// Time stamps.

/// The time stamp of a structure, encoded, to be parsed and validated.
///
/// A time stamp that cannot be encoded again is reported as an error of the time stamp.
pub fn timestamp_request(cose_bytes: &[u8], sign1: &CoseSign1) -> (r: Result<Vec<u8>, Error>)
    ensures
        match timestamp_place(sign1@) {
            None => r is Err && r->Err_0 == Error::NotFound,
            Some(i) => match r {
                Ok(cbor) => parameter_cbor_of(cose_bytes@, i as usize) == Some(cbor@),
                Err(err) => parameter_cbor_of(cose_bytes@, i as usize) is None && err
                    == Error::TimeStampError,
            },
        },
{
    match find_timestamp(sign1) {
        Some(i) => match parameter_cbor(cose_bytes, i) {
            Some(cbor) => Ok(cbor),
            None => Err(Error::TimeStampError),
        },
        None => Err(Error::NotFound),
    }
}

/// Of the time stamps that were parsed, the first.
///
/// There should only be one but more are technically ok.
pub fn get_timestamp_info(parsed: Result<Vec<TimeStamp>, Error>) -> (r: Result<TimeStamp, Error>)
    ensures
        match parsed {
            Ok(list) => if list@.len() > 0 {
                r == Ok::<TimeStamp, Error>(list@[0])
            } else {
                r == Err::<TimeStamp, Error>(Error::NotFound)
            },
            Err(err) => r == Err::<TimeStamp, Error>(err),
        },
{
    match parsed {
        Ok(list) => if list.len() > 0 {
            Ok(list[0])
        } else {
            Err(Error::NotFound)
        },
        Err(err) => Err(err),
    }
}

/// The second of a time stamp.
pub open spec fn seconds_of(tst_info_res: Result<TimeStamp, Error>) -> Option<i64> {
    match tst_info_res {
        Ok(t) => Some(t.seconds),
        Err(_) => None,
    }
}

/// The second of a time stamp.
pub fn tst_info_result_to_timestamp(tst_info_res: &Result<TimeStamp, Error>) -> (r: Option<i64>)
    ensures
        r == seconds_of(*tst_info_res),
{
    match tst_info_res {
        Ok(t) => Some(t.seconds),
        Err(_) => None,
    }
}

/// The moment of a time stamp, for display.
pub fn get_signing_time(tst_info_res: &Result<TimeStamp, Error>) -> (r: Option<TimeStamp>)
    ensures
        r == (match *tst_info_res {
            Ok(t) => Some(t),
            Err(_) => None,
        }),
{
    match tst_info_res {
        Ok(t) => Some(*t),
        Err(_) => None,
    }
}

// Trust.

/// What is found about the trust in a certificate, and what the log says.
pub open spec fn trust_outcome(
    log: StatusModel,
    verify_trust: Result<bool, Error>,
    trusted: Result<bool, Error>,
) -> (Result<(), Error>, StatusModel) {
    match (verify_trust, trusted) {
        (Err(err), _) => (Err(err), log),
        (Ok(false), _) => (Ok(()), log),
        (Ok(true), Ok(true)) => (
            Ok(()),
            log.with(
                LogItem {
                    label: "Cose_Sign1",
                    description: "signing certificate trusted",
                    function: "verify_cose",
                    validation_status: Some(ValidationStatus::SigningCredentialTrusted),
                    err_val: None,
                },
            ),
        ),
        (Ok(true), Ok(false)) => (
            Err(Error::CoseCertUntrusted),
            log.with(
                failure(
                    "signing certificate untrusted",
                    "verify_cose",
                    Some(ValidationStatus::SigningCredentialUntrusted),
                    Error::CoseCertUntrusted,
                ),
            ),
        ),
        (Ok(true), Err(err)) => (
            Err(err),
            log.with(
                failure(
                    "signing certificate untrusted",
                    "verify_cose",
                    Some(ValidationStatus::SigningCredentialUntrusted),
                    err,
                ),
            ),
        ),
    }
}

/// Checks that a certificate is trusted.
///
/// `verify_trust` is the setting that turns the check on; `trusted` is what the check against the
/// trust lists gave.
pub fn check_trust(
    verify_trust: Result<bool, Error>,
    trusted: Result<bool, Error>,
    validation_log: &mut StatusTracker,
) -> (r: Result<(), Error>)
    ensures
        (r, final(validation_log)@) == trust_outcome(
            old(validation_log)@,
            verify_trust,
            trusted,
        ),
{
    // just return if trust checks are disabled or misconfigured
    match verify_trust {
        Ok(verify_trust) => {
            if !verify_trust {
                return Ok(());
            }
        },
        Err(err) => return Err(err),
    }
    match trusted {
        Ok(trusted) => {
            if trusted {
                validation_log.success(
                    "signing certificate trusted",
                    "verify_cose",
                    ValidationStatus::SigningCredentialTrusted,
                );
                Ok(())
            } else {
                validation_log.failure_no_throw(
                    "signing certificate untrusted",
                    "verify_cose",
                    Some(ValidationStatus::SigningCredentialUntrusted),
                    Error::CoseCertUntrusted,
                );
                Err(Error::CoseCertUntrusted)
            }
        },
        Err(err) => {
            validation_log.failure_no_throw(
                "signing certificate untrusted",
                "verify_cose",
                Some(ValidationStatus::SigningCredentialUntrusted),
                err,
            );
            Err(err)
        },
    }
}

/// Whether an algorithm is one of ECDSA.
pub open spec fn is_ecdsa(alg: SigningAlg) -> bool {
    alg == SigningAlg::Es256 || alg == SigningAlg::Es384 || alg == SigningAlg::Es512
}

/// Tests for unrecognized signatures: one of ECDSA has to be in P1363 format, not in DER.
pub fn check_sig(is_der_signature: bool, alg: SigningAlg) -> (r: Result<(), Error>)
    ensures
        r == (if is_ecdsa(alg) && is_der_signature {
            Err::<(), Error>(Error::InvalidEcdsaSignature)
        } else {
            Ok::<(), Error>(())
        }),
{
    match alg {
        SigningAlg::Es256 | SigningAlg::Es384 | SigningAlg::Es512 => {
            if is_der_signature {
                // expected P1363 format
                return Err(Error::InvalidEcdsaSignature);
            }
        },
        _ => (),
    }
    Ok(())
}

// Verification.

/// What other services found out about a signature.
#[derive(Clone, Copy, Debug, PartialEq, Eq)]
pub struct Findings {
    /// The time stamp of the signature.
    pub time_stamp: Result<TimeStamp, Error>,
    /// The time now, in seconds since 1970.
    pub now: i64,
    /// Whether the acceptance policy allows one of the extended key usages of the signer's
    /// certificate.
    pub usage_allowed: bool,
    /// The setting that turns the check for trust on.
    pub verify_trust: Result<bool, Error>,
    /// Whether the signer's certificate is trusted.
    pub trusted: Result<bool, Error>,
    /// Whether the signature can be read as an ECDSA signature in DER.
    pub is_der_signature: bool,
    /// Whether the signature matches what it is made over and the key of the signer's certificate.
    pub signature_matches: bool,
}

/// What is found about the certificate of the signer, and what the log says. Errors of the time
/// stamp that do not stop the validation are passed over where `asynchronous`.
pub open spec fn credential_outcome(
    log: StatusModel,
    der: Seq<u8>,
    f: Findings,
    asynchronous: bool,
) -> (Result<(), Error>, StatusModel) {
    match f.time_stamp {
        Ok(t) => {
            let found = cert_rejection(der, Some(t.seconds), f.now, f.usage_allowed);
            (verdict(found), logged(log, found))
        },
        Err(Error::NotFound) => {
            let found = cert_rejection(der, None, f.now, f.usage_allowed);
            (verdict(found), logged(log, found))
        },
        Err(Error::TimeStampInvalidData) => (
            if asynchronous && !log.stops_on_error {
                Ok(())
            } else {
                Err(Error::CoseTimeStampMismatch)
            },
            log.with(
                failure(
                    if asynchronous {
                        "timestamp message imprint did not match"
                    } else {
                        "timestamp did not match signed data"
                    },
                    "verify_cose",
                    Some(ValidationStatus::TimestampMismatch),
                    Error::CoseTimeStampMismatch,
                ),
            ),
        ),
        Err(Error::CoseTimeStampValidity) => (
            if asynchronous && !log.stops_on_error {
                Ok(())
            } else {
                Err(Error::CoseTimeStampValidity)
            },
            log.with(
                failure(
                    if asynchronous {
                        "timestamp outside of validity"
                    } else {
                        "timestamp certificate outside of validity"
                    },
                    "verify_cose",
                    Some(ValidationStatus::TimestampOutsideValidity),
                    Error::CoseTimeStampValidity,
                ),
            ),
        ),
        Err(_) => (
            Err(Error::CoseInvalidTimeStamp),
            log.with(
                failure(
                    "error parsing timestamp",
                    "verify_cose",
                    None,
                    Error::CoseInvalidTimeStamp,
                ),
            ),
        ),
    }
}

fn check_credential(
    der: &[u8],
    f: &Findings,
    asynchronous: bool,
    validation_log: &mut StatusTracker,
) -> (r: Result<(), Error>)
    ensures
        (r, final(validation_log)@) == credential_outcome(
            old(validation_log)@,
            der@,
            *f,
            asynchronous,
        ),
{
    match f.time_stamp {
        Ok(t) => check_cert(der, f.usage_allowed, validation_log, Some(t.seconds), f.now),
        Err(Error::NotFound) => check_cert(der, f.usage_allowed, validation_log, None, f.now),
        Err(Error::TimeStampInvalidData) => {
            let status: Option<ValidationStatus> = Some(ValidationStatus::TimestampMismatch);
            if asynchronous {
                validation_log.failure(
                    "timestamp message imprint did not match",
                    "verify_cose",
                    status,
                    Error::CoseTimeStampMismatch,
                )
            } else {
                validation_log.failure_no_throw(
                    "timestamp did not match signed data",
                    "verify_cose",
                    status,
                    Error::CoseTimeStampMismatch,
                );
                Err(Error::CoseTimeStampMismatch)
            }
        },
        Err(Error::CoseTimeStampValidity) => {
            let status: Option<ValidationStatus> = Some(
                ValidationStatus::TimestampOutsideValidity,
            );
            if asynchronous {
                validation_log.failure(
                    "timestamp outside of validity",
                    "verify_cose",
                    status,
                    Error::CoseTimeStampValidity,
                )
            } else {
                validation_log.failure_no_throw(
                    "timestamp certificate outside of validity",
                    "verify_cose",
                    status,
                    Error::CoseTimeStampValidity,
                );
                Err(Error::CoseTimeStampValidity)
            }
        },
        Err(_) => {
            validation_log.failure_no_throw(
                "error parsing timestamp",
                "verify_cose",
                None,
                Error::CoseInvalidTimeStamp,
            );
            Err(Error::CoseInvalidTimeStamp)
        },
    }
}

/// What is told of a signature that matches.
pub open spec fn matched_info(
    der: Seq<u8>,
    alg: SigningAlg,
    serial: Seq<u8>,
    chain: Seq<u8>,
    time_stamp: Result<TimeStamp, Error>,
    asynchronous: bool,
) -> InfoModel {
    InfoModel {
        alg: Some(alg),
        date: match time_stamp {
            Ok(t) => Some(t),
            Err(_) => None,
        },
        cert_serial_number: Some(serial),
        issuer_org: Some(subject_or_empty(der)),
        validated: true,
        cert_chain: chain,
        revocation_status: if asynchronous {
            None
        } else {
            Some(true)
        },
    }
}

/// What is told of a signature in the end.
pub open spec fn signature_outcome(
    certs: Seq<Seq<u8>>,
    alg: SigningAlg,
    f: Findings,
    asynchronous: bool,
) -> Result<InfoModel, Error> {
    match fields_of(certs[0]) {
        Some(fields) => if f.signature_matches {
            match chain_pem(certs) {
                Some(chain) => Ok(
                    matched_info(
                        certs[0],
                        alg,
                        fields.serial,
                        chain,
                        f.time_stamp,
                        asynchronous,
                    ),
                ),
                None => Err(Error::UnsupportedType),
            }
        } else {
            Ok(no_info())
        },
        None => Ok(no_info()),
    }
}

/// The outcome of the verification of a structure with the certificates `certs`, which is signed
/// with `alg`.
pub open spec fn certs_outcome(
    log: StatusModel,
    certs: Seq<Seq<u8>>,
    alg: SigningAlg,
    cert_check: bool,
    f: Findings,
    asynchronous: bool,
) -> (Result<InfoModel, Error>, StatusModel) {
    let (credential, log1) = if cert_check {
        credential_outcome(log, certs[0], f, asynchronous)
    } else {
        (Ok(()), log)
    };
    if credential is Err {
        (Err(credential->Err_0), log1)
    } else {
        let (trust, log2) = if cert_check {
            trust_outcome(log1, f.verify_trust, f.trusted)
        } else {
            (Ok(()), log1)
        };
        if trust is Err {
            (Err(trust->Err_0), log2)
        } else if is_ecdsa(alg) && f.is_der_signature {
            (
                Err(Error::CoseSignatureAlgorithmNotSupported),
                log2.with(
                    failure(
                        "unsupported signature format",
                        "verify_cose",
                        Some(ValidationStatus::SigningCredentialInvalid),
                        if asynchronous {
                            Error::CoseSignatureAlgorithmNotSupported
                        } else {
                            Error::InvalidEcdsaSignature
                        },
                    ),
                ),
            )
        } else {
            (signature_outcome(certs, alg, f, asynchronous), log2)
        }
    }
}

/// What the log gets where the algorithm of a structure is not supported.
pub open spec fn unsupported_alg(log: StatusModel, asynchronous: bool) -> StatusModel {
    log.with(
        failure(
            "unsupported or missing Cose algorithm",
            if asynchronous {
                "verify_cose_async"
            } else {
                "verify_cose"
            },
            Some(ValidationStatus::AlgorithmUnsupported),
            Error::CoseSignatureAlgorithmNotSupported,
        ),
    )
}

/// The outcome of the verification of a decoded structure. `validators` are the algorithms for
/// which signatures can be validated, where that is decided first.
pub open spec fn sign1_outcome(
    log: StatusModel,
    m: Sign1Model,
    validators: Option<Seq<SigningAlg>>,
    cert_check: bool,
    f: Findings,
) -> (Result<InfoModel, Error>, StatusModel) {
    let asynchronous = validators is None;
    match signing_alg(m.core.alg) {
        None => (
            Err(Error::CoseSignatureAlgorithmNotSupported),
            unsupported_alg(log, asynchronous),
        ),
        Some(alg) => if validators is Some && !validators->0.contains(alg) {
            (Err(Error::CoseSignatureAlgorithmNotSupported), log)
        } else {
            match sign_certs(m) {
                Err(err) => (Err(err), log),
                Ok(certs) => certs_outcome(log, certs, alg, cert_check, f, asynchronous),
            }
        },
    }
}

/// The outcome of the verification of the structure encoded in `cose`.
pub open spec fn cose_outcome(
    log: StatusModel,
    cose: Seq<u8>,
    data: Seq<u8>,
    validators: Option<Seq<SigningAlg>>,
    cert_check: bool,
    f: Findings,
) -> (Result<InfoModel, Error>, StatusModel) {
    match sign1_of(cose, data) {
        None => (Err(Error::CoseSignature), undecodable(log)),
        Some(m) => sign1_outcome(log, m, validators, cert_check, f),
    }
}

/// The result of a verification as a model.
pub open spec fn info_of(r: Result<ValidationInfo, Error>) -> Result<InfoModel, Error> {
    match r {
        Ok(info) => Ok(info@),
        Err(err) => Err(err),
    }
}

fn empty_info() -> (r: ValidationInfo)
    ensures
        r@ == no_info(),
{
    let info = ValidationInfo {
        alg: None,
        date: None,
        cert_serial_number: None,
        issuer_org: None,
        validated: false,
        cert_chain: Vec::new(),
        revocation_status: None,
    };
    proof {
        assert(info@ =~= no_info());
    }
    info
}

fn finish(
    certs: &Vec<Vec<u8>>,
    alg: SigningAlg,
    f: &Findings,
    asynchronous: bool,
) -> (r: Result<ValidationInfo, Error>)
    requires
        certs@.len() > 0,
    ensures
        info_of(r) == signature_outcome(contents(certs@), alg, *f, asynchronous),
{
    let der: &Vec<u8> = &certs[0];
    proof {
        assert(contents(certs@)[0] == der@);
    }
    match validate_with_cert(f.signature_matches, der.as_slice()) {
        Ok(cert_info) => {
            let cert_chain = match dump_cert_chain(certs) {
                Ok(chain) => chain,
                Err(err) => return Err(err),
            };
            let info = ValidationInfo {
                alg: Some(alg),
                date: get_signing_time(&f.time_stamp),
                cert_serial_number: Some(cert_info.serial_number),
                issuer_org: Some(cert_info.subject),
                validated: true,
                cert_chain,
                revocation_status: if asynchronous {
                    None
                } else {
                    Some(true)
                },
            };
            Ok(info)
        },
        // the caller logs what concerns its claim
        Err(_) => Ok(empty_info()),
    }
}

fn verify_certs(
    certs: &Vec<Vec<u8>>,
    alg: SigningAlg,
    cert_check: bool,
    f: &Findings,
    asynchronous: bool,
    validation_log: &mut StatusTracker,
) -> (r: Result<ValidationInfo, Error>)
    requires
        certs@.len() > 0,
    ensures
        (info_of(r), final(validation_log)@) == certs_outcome(
            old(validation_log)@,
            contents(certs@),
            alg,
            cert_check,
            *f,
            asynchronous,
        ),
{
    proof {
        assert(contents(certs@)[0] == certs@[0]@);
    }
    if cert_check {
        match check_credential(certs[0].as_slice(), f, asynchronous, validation_log) {
            Ok(()) => (),
            Err(err) => return Err(err),
        }
        // is the certificate trusted
        match check_trust(f.verify_trust, f.trusted, validation_log) {
            Ok(()) => (),
            Err(err) => return Err(err),
        }
    }
    // check signature format

    match check_sig(f.is_der_signature, alg) {
        Ok(()) => (),
        Err(err) => {
            let logged_err: Error = if asynchronous {
                Error::CoseSignatureAlgorithmNotSupported
            } else {
                err
            };
            validation_log.failure_no_throw(
                "unsupported signature format",
                "verify_cose",
                Some(ValidationStatus::SigningCredentialInvalid),
                logged_err,
            );
            return Err(Error::CoseSignatureAlgorithmNotSupported);
        },
    }
    finish(certs, alg, f, asynchronous)
}

fn contains_alg(algs: &Vec<SigningAlg>, alg: SigningAlg) -> (r: bool)
    ensures
        r == algs@.contains(alg),
{
    let mut i: usize = 0;
    while i < algs.len()
        invariant
            i <= algs@.len(),
            forall|k: int| 0 <= k < i ==> algs@[k] != alg,
        decreases algs@.len() - i,
    {
        if algs[i] == alg {
            return true;
        }
        i = i + 1;
    }
    false
}

/// Verifies a decoded structure, with its findings given.
pub fn verify_sign1(
    sign1: &CoseSign1,
    validators: Option<&Vec<SigningAlg>>,
    cert_check: bool,
    f: &Findings,
    validation_log: &mut StatusTracker,
) -> (r: Result<ValidationInfo, Error>)
    ensures
        (info_of(r), final(validation_log)@) == sign1_outcome(
            old(validation_log)@,
            sign1@,
            match validators {
                Some(algs) => Some(algs@),
                None => None,
            },
            cert_check,
            *f,
        ),
{
    let asynchronous: bool = validators.is_none();
    let alg: SigningAlg = match get_signing_alg(sign1) {
        Ok(alg) => alg,
        Err(_) => {
            let function: &'static str = if asynchronous {
                "verify_cose_async"
            } else {
                "verify_cose"
            };
            validation_log.failure_no_throw(
                "unsupported or missing Cose algorithm",
                function,
                Some(ValidationStatus::AlgorithmUnsupported),
                Error::CoseSignatureAlgorithmNotSupported,
            );
            return Err(Error::CoseSignatureAlgorithmNotSupported);
        },
    };
    if let Some(algs) = validators {
        if !contains_alg(algs, alg) {
            return Err(Error::CoseSignatureAlgorithmNotSupported);
        }
    }
    // get the cert chain

    let certs = match get_sign_certs(sign1) {
        Ok(certs) => certs,
        Err(err) => return Err(err),
    };
    verify_certs(&certs, alg, cert_check, f, asynchronous, validation_log)
}

/// What a signature is to be matched with.
#[derive(Clone, Debug, PartialEq, Eq)]
pub struct SignatureInput {
    pub signature: Vec<u8>,
    /// What the signature is made over.
    pub tbs: Vec<u8>,
    /// The key of the signer's certificate, with its algorithm.
    pub public_key: Vec<u8>,
}

/// What the signature of a structure is to be matched with. There is nothing where the structure
/// cannot be decoded, it has no certificate or that cannot be read.
pub fn signature_input(cose_bytes: &[u8], data: &[u8], additional_data: &[u8]) -> (r: Option<
    SignatureInput,
>)
    ensures
        match sign1_of(cose_bytes@, data@) {
            None => r is None,
            Some(m) => match sign_certs(m) {
                Err(_) => r is None,
                Ok(certs) => match fields_of(certs[0]) {
                    None => r is None,
                    Some(fields) => r matches Some(input) && input.signature@ == m.core.signature
                        && tbs_of(cose_bytes@, data@, additional_data@) == Some(input.tbs@)
                        && input.public_key@ == fields.key_info,
                },
            },
        },
{
    let mut unused = StatusTracker::new(false);
    let sign1 = match get_cose_sign1(cose_bytes, data, &mut unused) {
        Ok(sign1) => sign1,
        Err(_) => return None,
    };
    let cert = match get_sign_cert(&sign1) {
        Ok(cert) => cert,
        Err(_) => return None,
    };
    let fields = certificate_fields(cert.as_slice())?;
    let tbs = to_be_signed(cose_bytes, data, additional_data)?;
    Some(SignatureInput { signature: sign1.core.signature, tbs, public_key: fields.key_info })
}

/// What the trust in a signer is to be found out from.
#[derive(Clone, Debug, PartialEq, Eq)]
pub struct TrustInput {
    /// The certificates behind the signer's.
    pub chain: Vec<Vec<u8>>,
    /// The certificate of the signer.
    pub cert: Vec<u8>,
    /// When the signature was made, where that is known, in seconds since 1970.
    pub signing_time: Option<i64>,
}

/// What the trust in the signer of a structure is to be found out from. There is nothing where the
/// trust is not asked for, the structure cannot be decoded or it has no certificate.
///
/// `verify_trust` is the setting that turns the check on.
pub fn trust_input(
    cose_bytes: &[u8],
    data: &[u8],
    cert_check: bool,
    verify_trust: &Result<bool, Error>,
    time_stamp: &Result<TimeStamp, Error>,
) -> (r: Option<TrustInput>)
    ensures
        match sign1_of(cose_bytes@, data@) {
            None => r is None,
            Some(m) => match sign_certs(m) {
                Err(_) => r is None,
                Ok(certs) => if cert_check && *verify_trust == Ok::<bool, Error>(true) {
                    &&& r matches Some(input)
                    &&& contents(input.chain@) == certs.subrange(1, certs.len() as int)
                    &&& input.cert@ == certs[0]
                    &&& input.signing_time == seconds_of(*time_stamp)
                } else {
                    r is None
                },
            },
        },
{
    match verify_trust {
        Ok(true) if cert_check => (),
        _ => return None,
    }
    let mut unused = StatusTracker::new(false);
    let sign1 = match get_cose_sign1(cose_bytes, data, &mut unused) {
        Ok(sign1) => sign1,
        Err(_) => return None,
    };
    let mut chain = match get_sign_certs(&sign1) {
        Ok(certs) => certs,
        Err(_) => return None,
    };
    let ghost certs = chain@;
    let cert: Vec<u8> = chain.remove(0);
    proof {
        assert(contents(certs)[0] == cert@);
        assert(contents(chain@) =~= contents(certs).subrange(1, certs.len() as int));
    }
    Some(TrustInput { chain, cert, signing_time: tst_info_result_to_timestamp(time_stamp) })
}

/// Validate a COSE_SIGN1 byte vector and verify against expected data
/// cose_bytes - byte array containing the raw COSE_SIGN1 data
/// data:  data that was used to create the cose_bytes, these must match
/// validators: the algorithms for which signatures can be validated
/// returns - Ok on success
pub fn verify_cose(
    cose_bytes: &[u8],
    data: &[u8],
    cert_check: bool,
    validators: &Vec<SigningAlg>,
    findings: &Findings,
    validation_log: &mut StatusTracker,
) -> (r: Result<ValidationInfo, Error>)
    ensures
        (info_of(r), final(validation_log)@) == cose_outcome(
            old(validation_log)@,
            cose_bytes@,
            data@,
            Some(validators@),
            cert_check,
            *findings,
        ),
{
    let sign1 = match get_cose_sign1(cose_bytes, data, validation_log) {
        Ok(sign1) => sign1,
        Err(err) => return Err(err),
    };
    verify_sign1(&sign1, Some(validators), cert_check, findings, validation_log)
}

/// Validates like [`verify_cose`], for findings that were made asynchronously: the signature is
/// then known not to match where it cannot be validated, and what is wrong with the time stamp
/// stops the validation only where the log stops on errors.
pub fn verify_cose_async(
    cose_bytes: &[u8],
    data: &[u8],
    cert_check: bool,
    findings: &Findings,
    validation_log: &mut StatusTracker,
) -> (r: Result<ValidationInfo, Error>)
    ensures
        (info_of(r), final(validation_log)@) == cose_outcome(
            old(validation_log)@,
            cose_bytes@,
            data@,
            None,
            cert_check,
            *findings,
        ),
{
    let sign1 = match get_cose_sign1(cose_bytes, data, validation_log) {
        Ok(sign1) => sign1,
        Err(err) => return Err(err),
    };
    verify_sign1(&sign1, None, cert_check, findings, validation_log)
}

/// What is told of a structure without verifying it.
pub open spec fn signing_info(
    sign1: Option<Sign1Model>,
    time_stamp: Result<TimeStamp, Error>,
) -> InfoModel {
    match sign1 {
        None => no_info(),
        Some(m) => match sign_certs(m) {
            Err(_) => no_info(),
            Ok(certs) => {
                let chain = match chain_pem(certs) {
                    Some(chain) => chain,
                    None => Seq::empty(),
                };
                match fields_of(certs[0]) {
                    Some(fields) => InfoModel {
                        alg: signing_alg(m.core.alg),
                        date: match time_stamp {
                            Ok(t) => Some(t),
                            Err(_) => None,
                        },
                        cert_serial_number: Some(fields.serial),
                        issuer_org: subject_of(certs[0]),
                        validated: false,
                        cert_chain: chain,
                        revocation_status: None,
                    },
                    None => InfoModel { cert_chain: chain, ..no_info() },
                }
            },
        },
    }
}

/// Tells of a structure without verifying it.
pub fn get_signing_info(
    cose_bytes: &[u8],
    data: &[u8],
    time_stamp: &Result<TimeStamp, Error>,
    validation_log: &mut StatusTracker,
) -> (r: ValidationInfo)
    ensures
        r@ == signing_info(sign1_of(cose_bytes@, data@), *time_stamp),
        final(validation_log)@ == (if sign1_of(cose_bytes@, data@) is Some {
            old(validation_log)@
        } else {
            undecodable(old(validation_log)@)
        }),
{
    let sign1 = match get_cose_sign1(cose_bytes, data, validation_log) {
        Ok(sign1) => sign1,
        Err(_) => return empty_info(),
    };
    let certs = match get_sign_certs(&sign1) {
        Ok(certs) => certs,
        Err(_) => return empty_info(),
    };
    let der: &Vec<u8> = &certs[0];
    proof {
        assert(contents(certs@)[0] == der@);
    }
    let mut info = empty_info();
    info.cert_chain = match dump_cert_chain(&certs) {
        Ok(chain) => chain,
        Err(_) => {
            let none: Vec<u8> = Vec::new();
            proof {
                assert(none@ =~= Seq::empty());
            }
            none
        },
    };
    if let Some(fields) = certificate_fields(der.as_slice()) {
        info.date = get_signing_time(time_stamp);
        info.issuer_org = match extract_subject_from_cert(der.as_slice()) {
            Ok(subject) => Some(subject),
            Err(_) => None,
        };
        info.cert_serial_number = Some(fields.serial);
        info.alg = match get_signing_alg(&sign1) {
            Ok(alg) => Some(alg),
            Err(_) => None,
        };
    }
    info
}

} // verus!
