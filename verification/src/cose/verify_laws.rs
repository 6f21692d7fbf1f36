//! What holds of the outcomes of verifications, and of what is told of signatures.

use vstd::prelude::*;

use crate::cose::certificate::{cert_rejection, logged, verdict};
use crate::cose::ocsp::{
    is_looked_at, responder_time, response_log, source_of, status_outcome, OcspFindings, OcspSource,
    SourceModel,
};
use crate::cose::sign1::{
    contents, ocsp_der, sign1_of, sign_certs, signing_alg, undecodable, Sign1Model, SigningAlg,
};
use crate::cose::status::{StatusModel, ValidationStatus};
use crate::cose::verify::{
    chain_pem, cose_outcome, credential_outcome, seconds_of, signing_info, subject_in, subject_of,
    subject_or_empty, trust_outcome, Findings, InfoModel, TimeStamp, ValidationInfo,
};
use crate::cose::x509::{fields_of, organizations_of, pem_of};
use crate::error::Error;

verus! {

/// Whether `after` is `before` with one item more, which is about a COSE_Sign1 structure and says
/// what is given.
pub open spec fn logs_one(
    before: StatusModel,
    after: StatusModel,
    description: &'static str,
    function: &'static str,
    status: Option<ValidationStatus>,
    err: Option<Error>,
) -> bool {
    let item = after.logged_items.last();
    &&& after.stops_on_error == before.stops_on_error
    &&& after.logged_items == before.logged_items.push(item)
    &&& item.label == "Cose_Sign1"
    &&& item.description == description
    &&& item.function == function
    &&& item.validation_status == status
    &&& item.err_val == err
}

// Certificates.

/// The PEM form of a chain is that of its certificates one after the other.
pub proof fn law_chains_are_put_together(a: Seq<Seq<u8>>, b: Seq<Seq<u8>>, cert: Seq<u8>)
    ensures
        chain_pem(Seq::empty()) == Some(Seq::<u8>::empty()),
        chain_pem(seq![cert]) == pem_of(cert),
        chain_pem(a + b) is Some <==> chain_pem(a) is Some && chain_pem(b) is Some,
        chain_pem(a + b) is Some ==> chain_pem(a + b) == Some(chain_pem(a)->0 + chain_pem(b)->0),
    decreases b.len(),
{
    let one = seq![cert];
    assert(one.drop_last() =~= Seq::empty());
    assert(chain_pem(one.drop_last()) == Some(Seq::<u8>::empty()));
    if let Some(pem) = pem_of(cert) {
        assert(Seq::<u8>::empty() + pem =~= pem);
    }
    if b.len() == 0 {
        assert(a + b =~= a);
        if let Some(chain) = chain_pem(a) {
            assert(chain + Seq::<u8>::empty() =~= chain);
        }
    } else {
        law_chains_are_put_together(a, b.drop_last(), cert);
        assert((a + b).drop_last() =~= a + b.drop_last());
        assert((a + b).last() == b.last());
        if chain_pem(a + b) is Some {
            assert(chain_pem(a + b)->0 =~= chain_pem(a)->0 + chain_pem(b)->0);
        }
    }
}

/// The organization that a certificate names is the last that its subject names, where that is
/// text; there is none where the subject names none or cannot be read.
pub proof fn law_the_last_organization_counts(
    der: Seq<u8>,
    others: Seq<Option<Seq<char>>>,
    last: Option<Seq<char>>,
)
    ensures
        subject_in(others.push(last)) == last,
        subject_in(Seq::empty()) is None,
        organizations_of(der) == Some(others.push(last)) ==> subject_of(der) == last,
        organizations_of(der) == Some(Seq::<Option<Seq<char>>>::empty()) ==> subject_of(der)
            is None,
        organizations_of(der) is None ==> subject_of(der) is None,
        subject_of(der) matches Some(name) ==> subject_or_empty(der) == name,
        subject_of(der) is None ==> subject_or_empty(der).len() == 0,
{
}

// Trust and time stamps.

/// Where trust is not asked for, its outcome is not looked at; else the signer has to be trusted,
/// and the log tells whether they are.
pub proof fn law_trust_is_asked_for(log: StatusModel, asked: Result<bool, Error>, trusted: Result<
    bool,
    Error,
>)
    ensures
        ({
            let (r, after) = trust_outcome(log, asked, trusted);
            &&& asked == Ok::<bool, Error>(false) ==> r == Ok::<(), Error>(()) && after == log
            &&& asked matches Err(err) ==> r == Err::<(), Error>(err) && after == log
            &&& asked == Ok::<bool, Error>(true) ==> {
                &&& r is Ok <==> trusted == Ok::<bool, Error>(true)
                &&& r is Ok ==> logs_one(
                    log,
                    after,
                    "signing certificate trusted",
                    "verify_cose",
                    Some(ValidationStatus::SigningCredentialTrusted),
                    None,
                )
                &&& r matches Err(err) ==> {
                    &&& trusted == Ok::<bool, Error>(false) ==> err == Error::CoseCertUntrusted
                    &&& trusted matches Err(why) ==> err == why
                    &&& logs_one(
                        log,
                        after,
                        "signing certificate untrusted",
                        "verify_cose",
                        Some(ValidationStatus::SigningCredentialUntrusted),
                        Some(err),
                    )
                }
            }
        }),
{
}

/// The second of a time stamp is its own, and there is none without a time stamp.
pub proof fn law_seconds_of_time_stamps(t: TimeStamp, err: Error)
    ensures
        seconds_of(Ok(t)) == Some(t.seconds),
        seconds_of(Err(err)) is None,
{
}

/// With a time stamp the certificate is checked at its time, and without one now.
pub proof fn law_credentials_are_checked(log: StatusModel, der: Seq<u8>, f: Findings, a: bool)
    requires
        f.time_stamp is Ok || f.time_stamp == Err::<TimeStamp, Error>(Error::NotFound),
    ensures
        ({
            let time = match f.time_stamp {
                Ok(t) => t.seconds,
                Err(_) => f.now,
            };
            let found = cert_rejection(der, None, time, f.usage_allowed);
            credential_outcome(log, der, f, a) == (verdict(found), logged(log, found))
        }),
{
}

/// A time stamp that cannot be used is an error and is logged, but for one that is for other data
/// or outside of the validity of its certificate: verifying asynchronously then goes on, unless
/// the log stops on errors.
pub proof fn law_unusable_time_stamps(log: StatusModel, der: Seq<u8>, f: Findings, a: bool)
    requires
        f.time_stamp matches Err(err) && err != Error::NotFound,
    ensures
        ({
            let (r, after) = credential_outcome(log, der, f, a);
            let goes_on = a && !log.stops_on_error;
            &&& f.time_stamp == Err::<TimeStamp, Error>(Error::TimeStampInvalidData) ==> {
                &&& r is Ok <==> goes_on
                &&& r matches Err(err) ==> err == Error::CoseTimeStampMismatch
                &&& logs_one(
                    log,
                    after,
                    if a {
                        "timestamp message imprint did not match"
                    } else {
                        "timestamp did not match signed data"
                    },
                    "verify_cose",
                    Some(ValidationStatus::TimestampMismatch),
                    Some(Error::CoseTimeStampMismatch),
                )
            }
            &&& f.time_stamp == Err::<TimeStamp, Error>(Error::CoseTimeStampValidity) ==> {
                &&& r is Ok <==> goes_on
                &&& r matches Err(err) ==> err == Error::CoseTimeStampValidity
                &&& logs_one(
                    log,
                    after,
                    if a {
                        "timestamp outside of validity"
                    } else {
                        "timestamp certificate outside of validity"
                    },
                    "verify_cose",
                    Some(ValidationStatus::TimestampOutsideValidity),
                    Some(Error::CoseTimeStampValidity),
                )
            }
            &&& f.time_stamp != Err::<TimeStamp, Error>(Error::TimeStampInvalidData) && f.time_stamp
                != Err::<TimeStamp, Error>(Error::CoseTimeStampValidity) ==> {
                &&& r == Err::<(), Error>(Error::CoseInvalidTimeStamp)
                &&& logs_one(
                    log,
                    after,
                    "error parsing timestamp",
                    "verify_cose",
                    None,
                    Some(Error::CoseInvalidTimeStamp),
                )
            }
        }),
{
}

// Verification.

/// Whether the certificate of the signer and the trust in them are acceptable, or not asked for.
pub open spec fn is_acceptable(log: StatusModel, der: Seq<u8>, cert_check: bool, f: Findings, a: bool)
    -> bool {
    cert_check ==> {
        &&& credential_outcome(log, der, f, a).0 is Ok
        &&& f.verify_trust == Ok::<bool, Error>(false) || f.verify_trust == Ok::<bool, Error>(true)
            && f.trusted == Ok::<bool, Error>(true)
    }
}

/// Whether a signature is one of ECDSA in DER.
pub open spec fn is_ecdsa_in_der(alg: SigningAlg, f: Findings) -> bool {
    f.is_der_signature && (alg is Es256 || alg is Es384 || alg is Es512)
}

/// A signature that matches is reported as validated, whatever its algorithm, with the algorithm,
/// the time stamp, the serial number, the organization and the chain of the signer's certificate,
/// where the structure has certificates that can be read and put into PEM, these are acceptable,
/// and the signature is not one of ECDSA in DER.
pub proof fn law_good_signatures_are_validated(
    log: StatusModel,
    cose: Seq<u8>,
    data: Seq<u8>,
    validators: Option<Seq<SigningAlg>>,
    cert_check: bool,
    f: Findings,
    m: Sign1Model,
    alg: SigningAlg,
    certs: Seq<Seq<u8>>,
)
    requires
        sign1_of(cose, data) == Some(m),
        signing_alg(m.core.alg) == Some(alg),
        validators matches Some(algs) ==> algs.contains(alg),
        sign_certs(m) == Ok::<Seq<Seq<u8>>, Error>(certs),
        fields_of(certs[0]) is Some,
        chain_pem(certs) is Some,
        is_acceptable(log, certs[0], cert_check, f, validators is None),
        !is_ecdsa_in_der(alg, f),
        f.signature_matches,
    ensures
        cose_outcome(log, cose, data, validators, cert_check, f).0 matches Ok(info) && {
            &&& info.validated
            &&& info.alg == Some(alg)
            &&& f.time_stamp matches Ok(t) ==> info.date == Some(t)
            &&& f.time_stamp is Err ==> info.date is None
            &&& info.cert_serial_number == Some(fields_of(certs[0])->0.serial)
            &&& info.issuer_org == Some(subject_or_empty(certs[0]))
            &&& Some(info.cert_chain) == chain_pem(certs)
            &&& validators is Some ==> info.revocation_status == Some(true)
            &&& validators is None ==> info.revocation_status is None
        },
{
}

/// A signature that does not match, or whose certificate cannot be read, is not an error, but
/// nothing is told of it.
pub proof fn law_bad_signatures_are_not_validated(
    log: StatusModel,
    cose: Seq<u8>,
    data: Seq<u8>,
    validators: Option<Seq<SigningAlg>>,
    cert_check: bool,
    f: Findings,
    m: Sign1Model,
    alg: SigningAlg,
    certs: Seq<Seq<u8>>,
)
    requires
        sign1_of(cose, data) == Some(m),
        signing_alg(m.core.alg) == Some(alg),
        validators matches Some(algs) ==> algs.contains(alg),
        sign_certs(m) == Ok::<Seq<Seq<u8>>, Error>(certs),
        is_acceptable(log, certs[0], cert_check, f, validators is None),
        !is_ecdsa_in_der(alg, f),
        !f.signature_matches || fields_of(certs[0]) is None,
    ensures
        cose_outcome(log, cose, data, validators, cert_check, f).0 matches Ok(info) && {
            &&& !info.validated
            &&& info.alg is None
            &&& info.date is None
            &&& info.cert_serial_number is None
            &&& info.issuer_org is None
            &&& info.cert_chain.len() == 0
            &&& info.revocation_status is None
        },
{
}

/// A matching signature whose certificates cannot all be put into PEM is an error.
pub proof fn law_chains_have_to_be_readable(
    log: StatusModel,
    cose: Seq<u8>,
    data: Seq<u8>,
    validators: Option<Seq<SigningAlg>>,
    cert_check: bool,
    f: Findings,
    m: Sign1Model,
    alg: SigningAlg,
    certs: Seq<Seq<u8>>,
)
    requires
        sign1_of(cose, data) == Some(m),
        signing_alg(m.core.alg) == Some(alg),
        validators matches Some(algs) ==> algs.contains(alg),
        sign_certs(m) == Ok::<Seq<Seq<u8>>, Error>(certs),
        fields_of(certs[0]) is Some,
        chain_pem(certs) is None,
        is_acceptable(log, certs[0], cert_check, f, validators is None),
        !is_ecdsa_in_der(alg, f),
        f.signature_matches,
    ensures
        cose_outcome(log, cose, data, validators, cert_check, f).0 == Err::<InfoModel, Error>(
            Error::UnsupportedType,
        ),
{
}

/// A structure that cannot be decoded, whose algorithm is not supported or cannot be validated, or
/// that has no certificates is an error.
pub proof fn law_incomplete_structures_are_refused(
    log: StatusModel,
    cose: Seq<u8>,
    data: Seq<u8>,
    validators: Option<Seq<SigningAlg>>,
    cert_check: bool,
    f: Findings,
)
    ensures
        ({
            let (r, after) = cose_outcome(log, cose, data, validators, cert_check, f);
            let unsupported = Err::<InfoModel, Error>(Error::CoseSignatureAlgorithmNotSupported);
            match sign1_of(cose, data) {
                None => r == Err::<InfoModel, Error>(Error::CoseSignature) && after == undecodable(
                    log,
                ),
                Some(m) => match signing_alg(m.core.alg) {
                    None => r == unsupported && logs_one(
                        log,
                        after,
                        "unsupported or missing Cose algorithm",
                        if validators is None {
                            "verify_cose_async"
                        } else {
                            "verify_cose"
                        },
                        Some(ValidationStatus::AlgorithmUnsupported),
                        Some(Error::CoseSignatureAlgorithmNotSupported),
                    ),
                    Some(alg) => {
                        let validated = validators matches Some(algs) ==> algs.contains(alg);
                        &&& !validated ==> r == unsupported && after == log
                        &&& validated ==> (sign_certs(m) matches Err(err) ==> r == Err::<
                            InfoModel,
                            Error,
                        >(err) && after == log)
                    },
                },
            }
        }),
{
}

/// What is wrong with the signer's certificate, with the trust in the signer or with the form of
/// the signature is an error, in this order; the log gets what each check leaves there.
pub proof fn law_unacceptable_signers_are_refused(
    log: StatusModel,
    cose: Seq<u8>,
    data: Seq<u8>,
    validators: Option<Seq<SigningAlg>>,
    cert_check: bool,
    f: Findings,
    m: Sign1Model,
    alg: SigningAlg,
    certs: Seq<Seq<u8>>,
)
    requires
        sign1_of(cose, data) == Some(m),
        signing_alg(m.core.alg) == Some(alg),
        validators matches Some(algs) ==> algs.contains(alg),
        sign_certs(m) == Ok::<Seq<Seq<u8>>, Error>(certs),
    ensures
        ({
            let (r, after) = cose_outcome(log, cose, data, validators, cert_check, f);
            let (credential, log1) = credential_outcome(log, certs[0], f, validators is None);
            let (trust, log2) = trust_outcome(log1, f.verify_trust, f.trusted);
            let before = if cert_check {
                log2
            } else {
                log
            };
            &&& cert_check && credential is Err ==> r == Err::<InfoModel, Error>(
                credential->Err_0,
            ) && after == log1
            &&& cert_check && credential is Ok && trust is Err ==> r == Err::<InfoModel, Error>(
                trust->Err_0,
            ) && after == log2
            &&& is_acceptable(log, certs[0], cert_check, f, validators is None) ==> if is_ecdsa_in_der(
                alg,
                f,
            ) {
                &&& r == Err::<InfoModel, Error>(Error::CoseSignatureAlgorithmNotSupported)
                &&& logs_one(
                    before,
                    after,
                    "unsupported signature format",
                    "verify_cose",
                    Some(ValidationStatus::SigningCredentialInvalid),
                    Some(
                        if validators is None {
                            Error::CoseSignatureAlgorithmNotSupported
                        } else {
                            Error::InvalidEcdsaSignature
                        },
                    ),
                )
            } else {
                after == before
            }
        }),
{
}

// What is told without verifying.

/// What is told of a structure whose first certificate can be read: that certificate's serial
/// number, its organization and its chain, and the algorithm and the time stamp of the structure.
pub proof fn law_signing_info_tells_of_the_signer(
    m: Sign1Model,
    time_stamp: Result<TimeStamp, Error>,
    certs: Seq<Seq<u8>>,
)
    requires
        sign_certs(m) == Ok::<Seq<Seq<u8>>, Error>(certs),
    ensures
        ({
            let info = signing_info(Some(m), time_stamp);
            &&& fields_of(certs[0]) matches Some(fields) ==> {
                &&& info.cert_serial_number == Some(fields.serial)
                &&& info.issuer_org == subject_of(certs[0])
                &&& info.alg == signing_alg(m.core.alg)
                &&& time_stamp matches Ok(t) ==> info.date == Some(t)
                &&& time_stamp is Err ==> info.date is None
            }
            &&& fields_of(certs[0]) is None ==> {
                &&& info.cert_serial_number is None
                &&& info.issuer_org is None
                &&& info.alg is None
                &&& info.date is None
            }
            &&& chain_pem(certs) matches Some(chain) ==> info.cert_chain == chain
            &&& chain_pem(certs) is None ==> info.cert_chain.len() == 0
        }),
{
}

/// Nothing is told of a structure that cannot be decoded or has no certificates.
pub proof fn law_signing_info_without_certificates(
    sign1: Option<Sign1Model>,
    time_stamp: Result<TimeStamp, Error>,
)
    requires
        sign1 matches Some(m) ==> sign_certs(m) is Err,
    ensures
        ({
            let info = signing_info(sign1, time_stamp);
            &&& info.alg is None
            &&& info.date is None
            &&& info.cert_serial_number is None
            &&& info.issuer_org is None
            &&& info.cert_chain.len() == 0
        }),
{
}

/// Where a structure is reported as validated, the algorithm, the date, the serial number, the
/// organization and the chain are those that are told without verifying.
pub proof fn law_signing_info_agrees_with_verification(
    log: StatusModel,
    cose: Seq<u8>,
    data: Seq<u8>,
    validators: Option<Seq<SigningAlg>>,
    cert_check: bool,
    f: Findings,
)
    ensures
        cose_outcome(log, cose, data, validators, cert_check, f).0 matches Ok(info) ==> (
        info.validated ==> {
            let told = signing_info(sign1_of(cose, data), f.time_stamp);
            &&& told.alg == info.alg
            &&& told.date == info.date
            &&& told.cert_serial_number == info.cert_serial_number
            &&& told.cert_chain == info.cert_chain
            &&& told.issuer_org matches Some(org) ==> info.issuer_org == Some(org)
            &&& told.issuer_org is None ==> info.issuer_org == Some(Seq::<char>::empty())
        }),
{
}

/// The model of what is told of a signature holds all that is told.
pub proof fn law_models_of_infos(info: ValidationInfo)
    ensures
        info@.alg == info.alg,
        info@.date == info.date,
        info.cert_serial_number matches Some(serial) ==> info@.cert_serial_number == Some(serial@),
        info.cert_serial_number is None ==> info@.cert_serial_number is None,
        info.issuer_org matches Some(org) ==> info@.issuer_org == Some(org@),
        info.issuer_org is None ==> info@.issuer_org is None,
        info@.validated == info.validated,
        info@.cert_chain == info.cert_chain@,
        info@.revocation_status == info.revocation_status,
{
}

// Revocation.

/// The response that a structure carries is the one that is used; without one a responder is asked
/// for the chain of certificates, where the setting allows to.
pub proof fn law_sources_of_responses(m: Sign1Model, fetch: Result<bool, Error>)
    ensures
        ocsp_der(m) matches Some(der) ==> source_of(m, fetch) == Ok::<SourceModel, Error>(
            SourceModel::Stapled(der),
        ),
        ocsp_der(m) is None && fetch != Ok::<bool, Error>(true) ==> source_of(m, fetch) == Ok::<
            SourceModel,
            Error,
        >(SourceModel::Unused),
        ocsp_der(m) is None && fetch == Ok::<bool, Error>(true) ==> {
            &&& sign_certs(m) matches Ok(certs) ==> source_of(m, fetch) == Ok::<SourceModel, Error>(
                SourceModel::Fetched(certs),
            )
            &&& sign_certs(m) matches Err(err) ==> source_of(m, fetch) == Err::<SourceModel, Error>(
                err,
            )
        },
{
}

/// The models of sources hold what the sources do.
pub proof fn law_models_of_sources(der: Vec<u8>, certs: Vec<Vec<u8>>)
    ensures
        OcspSource::Stapled(der)@ == SourceModel::Stapled(der@),
        OcspSource::Fetched(certs)@ == SourceModel::Fetched(contents(certs@)),
        OcspSource::Unused@ == SourceModel::Unused,
        contents(certs@).len() == certs@.len(),
        forall|i: int| 0 <= i < certs@.len() ==> #[trigger] contents(certs@)[i] == certs@[i]@,
{
}

/// A response that is carried is looked at where the signature has a time stamp, one that was
/// fetched always.
pub proof fn law_responses_that_are_looked_at(
    der: Seq<u8>,
    certs: Seq<Seq<u8>>,
    time_stamp: Result<TimeStamp, Error>,
)
    ensures
        is_looked_at(SourceModel::Stapled(der), time_stamp) <==> time_stamp is Ok,
        is_looked_at(SourceModel::Fetched(certs), time_stamp),
        !is_looked_at(SourceModel::Unused, time_stamp),
        time_stamp matches Ok(t) ==> responder_time(SourceModel::Stapled(der), time_stamp) == Some(
            t.seconds,
        ),
        responder_time(SourceModel::Fetched(certs), time_stamp) is None,
{
}

/// A response is used where it is looked at and is not malformed and, unless it revokes or comes
/// without certificates, the responder's certificate is accepted: at the time of the signature for
/// one that is carried, now for one that was fetched.
pub proof fn law_responses_are_used(
    log: StatusModel,
    source: SourceModel,
    time_stamp: Result<TimeStamp, Error>,
    f: OcspFindings,
    allowed: bool,
    now: i64,
)
    ensures
        ({
            let (r, after) = status_outcome(log, source, time_stamp, f, allowed, now);
            let read = StatusModel { logged_items: log.logged_items + f.logged_items@, ..log };
            let time = match (source, time_stamp) {
                (SourceModel::Stapled(_), Ok(t)) => t.seconds,
                _ => now,
            };
            &&& !is_looked_at(source, time_stamp) ==> r == Ok::<bool, Error>(false) && after == log
            &&& is_looked_at(source, time_stamp) ==> {
                &&& f.response is None ==> r == Ok::<bool, Error>(false) && after == read
                &&& f.response matches Some(response) ==> {
                    &&& response.revoked || response.ocsp_certs is None ==> r == Ok::<bool, Error>(
                        true,
                    ) && after == read
                    &&& !response.revoked ==> (response.ocsp_certs matches Some(certs) ==> {
                        let found = cert_rejection(certs@[0]@, None, time, allowed);
                        &&& verdict(found) is Ok ==> r == Ok::<bool, Error>(true)
                        &&& verdict(found) matches Err(err) ==> r == Err::<bool, Error>(err)
                        &&& after == logged(read, found)
                    })
                }
            }
        }),
{
    assert(response_log(log, f) == (StatusModel {
        logged_items: log.logged_items + f.logged_items@,
        ..log
    }));
}

} // verus!
