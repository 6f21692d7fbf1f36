//! The revocation status of the signer's certificate.

use vstd::prelude::*;

use crate::cose::certificate::{cert_rejection, check_cert, logged, verdict};
use crate::cose::sign1::{contents, ocsp_der, sign1_of, sign_certs, undecodable, Sign1Model};
use crate::cose::sign1::{get_cose_sign1, get_ocsp_der, get_sign_certs};
use crate::cose::status::{LogItem, StatusModel, StatusTracker};
use crate::cose::verify::{seconds_of, tst_info_result_to_timestamp, TimeStamp};
use crate::error::Error;

verus! {

/// Where the response of an OCSP responder comes from.
#[derive(Clone, Debug, PartialEq, Eq)]
pub enum OcspSource {
    /// The signature carries it.
    Stapled(Vec<u8>),
    /// It has to be fetched, for this chain of certificates.
    Fetched(Vec<Vec<u8>>),
    /// It is not asked for.
    Unused,
}

/// What an [`OcspSource`] holds.
pub enum SourceModel {
    Stapled(Seq<u8>),
    Fetched(Seq<Seq<u8>>),
    Unused,
}

impl View for OcspSource {
    type V = SourceModel;

    open spec fn view(&self) -> SourceModel {
        match self {
            OcspSource::Stapled(der) => SourceModel::Stapled(der@),
            OcspSource::Fetched(certs) => SourceModel::Fetched(contents(certs@)),
            OcspSource::Unused => SourceModel::Unused,
        }
    }
}

/// Where the response for a structure comes from: the structure itself, else a responder, where
/// the setting `ocsp_fetch` allows to ask one.
pub open spec fn source_of(m: Sign1Model, ocsp_fetch: Result<bool, Error>) -> Result<
    SourceModel,
    Error,
> {
    match ocsp_der(m) {
        Some(der) => Ok(SourceModel::Stapled(der)),
        None => if ocsp_fetch == Ok::<bool, Error>(true) {
            match sign_certs(m) {
                Ok(certs) => Ok(SourceModel::Fetched(certs)),
                Err(err) => Err(err),
            }
        } else {
            Ok(SourceModel::Unused)
        },
    }
}

/// Where the response of an OCSP responder for a structure comes from.
pub fn ocsp_source(
    cose_bytes: &[u8],
    data: &[u8],
    ocsp_fetch: Result<bool, Error>,
    validation_log: &mut StatusTracker,
) -> (r: Result<OcspSource, Error>)
    ensures
        match sign1_of(cose_bytes@, data@) {
            None => {
                &&& r is Err && r->Err_0 == Error::CoseSignature
                &&& final(validation_log)@ == undecodable(old(validation_log)@)
            },
            Some(m) => {
                &&& final(validation_log)@ == old(validation_log)@
                &&& match r {
                    Ok(source) => source_of(m, ocsp_fetch) == Ok::<SourceModel, Error>(source@),
                    Err(err) => source_of(m, ocsp_fetch) == Err::<SourceModel, Error>(err),
                }
            },
        },
{
    let sign1 = match get_cose_sign1(cose_bytes, data, validation_log) {
        Ok(sign1) => sign1,
        Err(err) => return Err(err),
    };
    if let Some(der) = get_ocsp_der(&sign1) {
        return Ok(OcspSource::Stapled(der));
    }
    // only support fetching with the enabled

    match ocsp_fetch {
        Ok(true) => match get_sign_certs(&sign1) {
            Ok(certs) => Ok(OcspSource::Fetched(certs)),
            Err(err) => Err(err),
        },
        _ => Ok(OcspSource::Unused),
    }
}

/// What a response that is not malformed says.
#[derive(Clone, Debug, PartialEq, Eq)]
pub struct OcspResponse {
    /// Whether the certificate was revoked.
    pub revoked: bool,
    /// The certificates of the responder, its own first.
    pub ocsp_certs: Option<Vec<Vec<u8>>>,
}

impl OcspResponse {
    /// Whether there is a certificate of the responder to check, where they are given and are
    /// checked: those of a response that revokes are not.
    pub open spec fn wf(&self) -> bool {
        self.ocsp_certs matches Some(certs) ==> self.revoked || certs@.len() > 0
    }
}

/// What became of a response.
#[derive(Clone, Debug, PartialEq, Eq)]
pub struct OcspFindings {
    /// The response, where there is one that is not malformed.
    pub response: Option<OcspResponse>,
    /// What the responder's answer left in the log.
    pub logged_items: Vec<LogItem>,
}

/// Whether a response is looked at: one that the signature carries only where the signature has a
/// time stamp.
pub open spec fn is_looked_at(source: SourceModel, time_stamp: Result<TimeStamp, Error>) -> bool {
    match source {
        SourceModel::Stapled(_) => time_stamp is Ok,
        SourceModel::Fetched(_) => true,
        SourceModel::Unused => false,
    }
}

/// Whether a response is looked at.
pub fn looks_at_response(source: &OcspSource, time_stamp: &Result<TimeStamp, Error>) -> (r: bool)
    ensures
        r == is_looked_at(source@, *time_stamp),
{
    match source {
        // check stapled OCSP response, must have timestamp
        OcspSource::Stapled(_) => time_stamp.is_ok(),
        OcspSource::Fetched(_) => true,
        OcspSource::Unused => false,
    }
}

/// The time at which the certificate of the responder has to be valid, where it is not now.
pub open spec fn responder_time(
    source: SourceModel,
    time_stamp: Result<TimeStamp, Error>,
) -> Option<i64> {
    match source {
        SourceModel::Stapled(_) => seconds_of(time_stamp),
        _ => None,
    }
}

/// The log after a response was looked at.
pub open spec fn response_log(log: StatusModel, f: OcspFindings) -> StatusModel {
    StatusModel { logged_items: log.logged_items + f.logged_items@, ..log }
}

/// Whether a response is used, and what the log says.
pub open spec fn status_outcome(
    log: StatusModel,
    source: SourceModel,
    time_stamp: Result<TimeStamp, Error>,
    f: OcspFindings,
    usage_allowed: bool,
    now: i64,
) -> (Result<bool, Error>, StatusModel) {
    if !is_looked_at(source, time_stamp) {
        (Ok(false), log)
    } else {
        let log1 = response_log(log, f);
        match f.response {
            None => (Ok(false), log1),
            Some(response) => match response.ocsp_certs {
                Some(certs) => if response.revoked {
                    (Ok(true), log1)
                } else {
                    let found = cert_rejection(
                        certs@[0]@,
                        responder_time(source, time_stamp),
                        now,
                        usage_allowed,
                    );
                    (
                        match verdict(found) {
                            Ok(()) => Ok(true),
                            Err(err) => Err(err),
                        },
                        logged(log1, found),
                    )
                },
                None => (Ok(true), log1),
            },
        }
    }
}

/// Decides whether the response of an OCSP responder is used: it is where it is not malformed and,
/// unless it revokes, the responder's certificate may sign it.
///
/// A response that is not used is as good as none. `usage_allowed` says whether the acceptance
/// policy allows one of the extended key usages of the responder's certificate.
pub fn check_ocsp_status(
    source: &OcspSource,
    time_stamp: &Result<TimeStamp, Error>,
    findings: &OcspFindings,
    usage_allowed: bool,
    now: i64,
    validation_log: &mut StatusTracker,
) -> (r: Result<bool, Error>)
    requires
        is_looked_at(source@, *time_stamp) ==> (findings.response matches Some(response)
            ==> response.wf()),
    ensures
        (r, final(validation_log)@) == status_outcome(
            old(validation_log)@,
            source@,
            *time_stamp,
            *findings,
            usage_allowed,
            now,
        ),
{
    if !looks_at_response(source, time_stamp) {
        return Ok(false);
    }
    let time: Option<i64> = match source {
        OcspSource::Stapled(_) => tst_info_result_to_timestamp(time_stamp),
        _ => None,
    };
    append_items(validation_log, &findings.logged_items);
    match &findings.response {
        None => Ok(false),
        Some(response) => match &response.ocsp_certs {
            Some(certs) => {
                if response.revoked {
                    return Ok(true);
                }
                match check_cert(certs[0].as_slice(), usage_allowed, validation_log, time, now) {
                    Ok(()) => Ok(true),
                    Err(err) => Err(err),
                }
            },
            None => Ok(true),
        },
    }
}

fn append_items(validation_log: &mut StatusTracker, items: &Vec<LogItem>)
    ensures
        final(validation_log)@ == (StatusModel {
            logged_items: old(validation_log)@.logged_items + items@,
            ..old(validation_log)@
        }),
{
    let mut i: usize = 0;
    proof {
        assert(items@.take(0) =~= Seq::empty());
        assert(validation_log@.logged_items =~= old(validation_log)@.logged_items + items@.take(
            0,
        ));
    }
    while i < items.len()
        invariant
            i <= items@.len(),
            validation_log.stops_on_error == old(validation_log).stops_on_error,
            validation_log@.logged_items == old(validation_log)@.logged_items + items@.take(
                i as int,
            ),
        decreases items@.len() - i,
    {
        let item: &LogItem = &items[i];
        let copy = LogItem {
            label: item.label,
            description: item.description,
            function: item.function,
            validation_status: item.validation_status,
            err_val: item.err_val,
        };
        proof {
            assert(copy == items@[i as int]);
        }
        validation_log.logged_items.push(copy);
        proof {
            assert(validation_log@.logged_items =~= old(validation_log)@.logged_items
                + items@.take(i + 1));
        }
        i = i + 1;
    }
    proof {
        assert(items@.take(i as int) =~= items@);
    }
}

} // verus!
