//! What is told of a signing certificate.

use vstd::prelude::*;

use crate::cose::sign1::SigningAlg;
use crate::cose::verify::TimeStamp;

verus! {

/// Summary information about an X.509 signing certificate and the validation
/// performed on it.
#[derive(Clone, Debug, PartialEq, Eq)]
pub struct CertificateInfo {
    /// Algorithm used to validate the signature
    pub alg: Option<SigningAlg>,
    /// Date the signature was created
    pub date: Option<TimeStamp>,
    /// Certificate serial number, most significant byte first
    pub cert_serial_number: Option<Vec<u8>>,
    /// Certificate issuer organization
    pub issuer_org: Option<String>,
    /// Signature validity
    pub validated: bool,
    /// Certificate chain used to validate the signature
    pub cert_chain: Vec<u8>,
    /// Signature revocation status
    pub revocation_status: Option<bool>,
    /// User attested time (iat) if present
    pub iat: Option<String>,
}

impl Default for CertificateInfo {
    /// A summary that tells nothing, of a signature that is not validated.
    fn default() -> (r: CertificateInfo)
        ensures
            r.alg is None,
            r.date is None,
            r.cert_serial_number is None,
            r.issuer_org is None,
            !r.validated,
            r.cert_chain@ == Seq::<u8>::empty(),
            r.revocation_status is None,
            r.iat is None,
    {
        CertificateInfo {
            alg: None,
            date: None,
            cert_serial_number: None,
            issuer_org: None,
            validated: false,
            cert_chain: Vec::new(),
            revocation_status: None,
            iat: None,
        }
    }
}

} // verus!
