//! What holds of the verification of signatures as a whole.

use vstd::prelude::*;

use crate::cose::certificate::{cert_rejection, certificate_of, is_within, logged, verdict};
use crate::cose::sign1::{
    first_label, sign1_of, sign_certs, signing_alg, unprotected_certs, Sign1Model, SigningAlg,
};
use crate::cose::status::{failure, StatusModel, ValidationStatus};
use crate::cose::verify::{
    certs_outcome, cose_outcome, credential_outcome, signing_info, trust_outcome, Findings,
    InfoModel, TimeStamp,
};
use crate::cose::x509::is_date;
use crate::error::Error;

verus! {

/// Whether `after` is `before` with nothing taken away or changed.
pub open spec fn extends(before: StatusModel, after: StatusModel) -> bool {
    &&& after.stops_on_error == before.stops_on_error
    &&& before.logged_items.len() <= after.logged_items.len()
    &&& after.logged_items.take(before.logged_items.len() as int) == before.logged_items
}

proof fn lemma_extends_with(
    log: StatusModel,
    item: crate::cose::status::LogItem,
)
    ensures
        extends(log, log.with(item)),
        extends(log, log),
{
    assert(log.with(item).logged_items.take(log.logged_items.len() as int)
        =~= log.logged_items);
    assert(log.logged_items.take(log.logged_items.len() as int) =~= log.logged_items);
}

proof fn lemma_extends_trans(a: StatusModel, b: StatusModel, c: StatusModel)
    requires
        extends(a, b),
        extends(b, c),
    ensures
        extends(a, c),
{
    let n = a.logged_items.len() as int;
    assert(c.logged_items.take(n) =~= b.logged_items.take(n)) by {
        assert forall|i: int| 0 <= i < n implies c.logged_items[i] == b.logged_items[i] by {
            assert(c.logged_items.take(b.logged_items.len() as int)[i] == b.logged_items[i]);
        }
    }
}

proof fn lemma_certs_log(
    log: StatusModel,
    certs: Seq<Seq<u8>>,
    alg: SigningAlg,
    cert_check: bool,
    f: Findings,
    asynchronous: bool,
)
    ensures
        extends(log, certs_outcome(log, certs, alg, cert_check, f, asynchronous).1),
{
    broadcast use lemma_with_extends;

    lemma_extends_with(log, failure("", "", None, Error::NotFound));
    let log1 = if cert_check {
        credential_outcome(log, certs[0], f, asynchronous).1
    } else {
        log
    };
    assert(extends(log, log1));
    let log2 = if cert_check {
        trust_outcome(log1, f.verify_trust, f.trusted).1
    } else {
        log1
    };
    lemma_extends_with(log1, failure("", "", None, Error::NotFound));
    lemma_extends_with(log2, failure("", "", None, Error::NotFound));
    assert(extends(log1, log2));
    lemma_extends_trans(log, log1, log2);
    let last = certs_outcome(log, certs, alg, cert_check, f, asynchronous).1;
    if last != log1 && last != log2 {
        assert(extends(log2, last));
        lemma_extends_trans(log, log2, last);
    }
}

broadcast proof fn lemma_with_extends(log: StatusModel, item: crate::cose::status::LogItem)
    ensures
        extends(log, #[trigger] log.with(item)),
{
    lemma_extends_with(log, item);
}

/// A verification adds to the log and changes nothing in it.
pub proof fn law_log_only_grows(
    log: StatusModel,
    cose: Seq<u8>,
    data: Seq<u8>,
    validators: Option<Seq<SigningAlg>>,
    cert_check: bool,
    f: Findings,
)
    ensures
        extends(log, cose_outcome(log, cose, data, validators, cert_check, f).1),
{
    broadcast use lemma_with_extends;

    lemma_extends_with(log, failure("", "", None, Error::NotFound));
    if let Some(m) = sign1_of(cose, data) {
        if let Some(alg) = signing_alg(m.core.alg) {
            if let Ok(certs) = sign_certs(m) {
                lemma_certs_log(log, certs, alg, cert_check, f, validators is None);
            }
        }
    }
}

/// A signature that is reported as validated matches its data, is made with a supported algorithm,
/// and not as an ECDSA signature in DER; where certificates are checked, the signer's is
/// acceptable at the time of the signature, or now where there is no time stamp, and trusted where
/// trust is asked for.
pub proof fn law_validated_signatures_are_sound(
    log: StatusModel,
    cose: Seq<u8>,
    data: Seq<u8>,
    validators: Option<Seq<SigningAlg>>,
    cert_check: bool,
    f: Findings,
)
    requires
        cose_outcome(log, cose, data, validators, cert_check, f).0 matches Ok(info)
            && info.validated,
    ensures
        f.signature_matches,
        sign1_of(cose, data) matches Some(m) && signing_alg(m.core.alg) is Some && (sign_certs(m)
            matches Ok(certs) && (cert_check ==> {
            &&& f.time_stamp matches Ok(t) ==> cert_rejection(
                certs[0],
                Some(t.seconds),
                f.now,
                f.usage_allowed,
            ) is None
            &&& f.time_stamp == Err::<TimeStamp, Error>(Error::NotFound) ==> cert_rejection(
                certs[0],
                None,
                f.now,
                f.usage_allowed,
            ) is None
            &&& f.verify_trust == Ok::<bool, Error>(false) || f.verify_trust == Ok::<bool, Error>(
                true,
            ) && f.trusted == Ok::<bool, Error>(true)
        })),
        f.is_der_signature ==> {
            let alg = signing_alg(sign1_of(cose, data)->0.core.alg)->0;
            alg != SigningAlg::Es256 && alg != SigningAlg::Es384 && alg != SigningAlg::Es512
        },
{
}

/// Both ways of verifying agree, but for the revocation status that one of them reports, where
/// signatures of the algorithm can be validated and, if certificates are checked, the time stamp is
/// neither for other data nor outside of the validity of its certificate.
pub proof fn law_both_verifications_agree(
    log: StatusModel,
    cose: Seq<u8>,
    data: Seq<u8>,
    validators: Seq<SigningAlg>,
    cert_check: bool,
    f: Findings,
)
    requires
        sign1_of(cose, data) matches Some(m) && (signing_alg(m.core.alg) matches Some(alg)
            && validators.contains(alg)),
        cert_check ==> f.time_stamp != Err::<TimeStamp, Error>(Error::TimeStampInvalidData),
        cert_check ==> f.time_stamp != Err::<TimeStamp, Error>(Error::CoseTimeStampValidity),
    ensures
        ({
            let a = cose_outcome(log, cose, data, Some(validators), cert_check, f).0;
            let b = cose_outcome(log, cose, data, None, cert_check, f).0;
            match (a, b) {
                (Ok(x), Ok(y)) => y == (InfoModel { revocation_status: None, ..x }),
                (Err(x), Err(y)) => x == y,
                _ => false,
            }
        }),
{
}

/// A certificate of the right version that is not valid at the signing time, or now where that is
/// not known, is rejected as expired, and the log says so.
pub proof fn law_expired_certificates_are_rejected(
    log: StatusModel,
    der: Seq<u8>,
    signing_time: Option<i64>,
    now: i64,
    usage_allowed: bool,
)
    requires
        ({
            let time = match signing_time {
                Some(t) => t,
                None => now,
            };
            &&& is_date(time)
            &&& certificate_of(der) matches Some(c)
            &&& c.fields.version == 2
            &&& !is_within(c.validity, time)
        }),
    ensures
        ({
            let found = cert_rejection(der, signing_time, now, usage_allowed);
            &&& verdict(found) == Err::<(), Error>(Error::CoseCertExpiration)
            &&& logged(log, found) == log.with(
                failure(
                    "certificate expired",
                    "check_cert_alg",
                    Some(ValidationStatus::SigningCredentialExpired),
                    Error::CoseCertExpiration,
                ),
            )
        }),
{
}

/// The certificates of a structure are in one of its headers only.
pub proof fn law_certificates_are_in_one_header(m: Sign1Model)
    requires
        first_label(m.protected, "x5chain"@, true) is Some,
        unprotected_certs(m) is Ok,
    ensures
        sign_certs(m) == Err::<Seq<Seq<u8>>, Error>(Error::CoseVerifier),
{
}

/// Where a structure has certificates, there is one of the signer.
pub proof fn law_a_signer_has_a_certificate(m: Sign1Model)
    requires
        sign_certs(m) is Ok,
    ensures
        sign_certs(m)->Ok_0.len() > 0,
{
}

/// What is told of a structure without verifying it never says that it was validated, and tells of
/// no revocation status.
pub proof fn law_signing_info_is_unvalidated(
    m: Option<Sign1Model>,
    time_stamp: Result<TimeStamp, Error>,
)
    ensures
        !signing_info(m, time_stamp).validated,
        signing_info(m, time_stamp).revocation_status is None,
{
}

} // verus!
