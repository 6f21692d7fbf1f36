//! Which certificates a signature may be made with.

use vstd::prelude::*;

use crate::cose::oid::{is_one_of_oids, one_of_oids, KnownOid};
use crate::cose::status::{failure, StatusModel, StatusTracker, ValidationStatus};
use crate::cose::x509::{
    algorithm_identifier, asn1_header, ber_integer_bits, certificate_extensions, certificate_fields,
    certificate_parameters, certificate_usage, certificate_validity, is_asn1_time, leading_oid,
    CertificateFields, CertificateParameters, ExtendedKeyUsage, Extension, Validity,
};
use crate::cose::x509::{
    algorithm_of, dotted_oid_of, extensions_of, fields_of, header_of, integer_bits_of,
    is_date, parameters_of, usage_of, validity_of, ExtensionModel, FieldsModel, ParametersModel,
    UsageModel,
};
use crate::error::Error;
use crate::text::{bytes_eq, str_eq};

verus! {

/// The hash algorithms that the parameters of an RSASSA-PSS signature name.
#[derive(Clone, Debug, PartialEq, Eq)]
pub struct PssHashes {
    /// The object identifier of the hash of the data.
    pub hash: Vec<u8>,
    /// The same in dotted form.
    pub hash_dotted: String,
    /// The object identifier of the hash of the mask generation, in dotted form.
    pub mask_dotted: String,
}

/// What [`PssHashes`] hold.
#[verifier::ext_equal]
pub struct PssModel {
    pub hash: Seq<u8>,
    pub hash_dotted: Seq<char>,
    pub mask_dotted: Seq<char>,
}

impl View for PssHashes {
    type V = PssModel;

    open spec fn view(&self) -> PssModel {
        PssModel {
            hash: self.hash@,
            hash_dotted: self.hash_dotted@,
            mask_dotted: self.mask_dotted@,
        }
    }
}

/// What is checked of a certificate.
#[derive(Clone, Debug, PartialEq, Eq)]
pub struct Certificate {
    pub fields: CertificateFields,
    pub validity: Validity,
    pub parameters: CertificateParameters,
    /// The hash algorithms, where the signature's parameters are those of RSASSA-PSS.
    pub pss: Option<PssHashes>,
    /// The lengths in bits of the numbers that an RSA key is made of, each none where it is no
    /// number; none at all where the key is not a sequence.
    pub key_numbers: Option<Vec<Option<u64>>>,
    /// The extended key usages: within the first option, none where they are malformed; within
    /// the second, none where they are not given.
    pub usage: Option<Option<ExtendedKeyUsage>>,
    pub extensions: Vec<Extension>,
}

/// What a [`Certificate`] holds.
#[verifier::ext_equal]
pub struct CertificateModel {
    pub fields: FieldsModel,
    pub validity: Validity,
    pub parameters: ParametersModel,
    pub pss: Option<PssModel>,
    pub key_numbers: Option<Seq<Option<u64>>>,
    pub usage: Option<Option<UsageModel>>,
    pub extensions: Seq<ExtensionModel>,
}

impl View for Certificate {
    type V = CertificateModel;

    open spec fn view(&self) -> CertificateModel {
        CertificateModel {
            fields: self.fields@,
            validity: self.validity,
            parameters: self.parameters@,
            pss: match self.pss {
                Some(pss) => Some(pss@),
                None => None,
            },
            key_numbers: match self.key_numbers {
                Some(numbers) => Some(numbers@),
                None => None,
            },
            usage: match self.usage {
                Some(Some(usage)) => Some(Some(usage@)),
                Some(None) => Some(None),
                None => None,
            },
            extensions: self.extensions@.map_values(|e: Extension| e@),
        }
    }
}

/// The class of tags whose meaning depends on where they stand.
pub const CONTEXT_SPECIFIC: u8 = 2;

/// The hash algorithms in the parameters `content` of an RSASSA-PSS signature.
///
/// They stand in the first two fields, which are tagged 0 and 1: an algorithm identifier, and one
/// whose parameters start with the object identifier of a hash. What follows is ignored.
pub open spec fn pss_of(content: Seq<u8>) -> Option<PssModel> {
    match header_of(content) {
        Some((class, tag, rest)) => if class != CONTEXT_SPECIFIC || tag != 0 {
            None
        } else {
            match algorithm_of(rest) {
                Some(hash) => match header_of(hash.rest) {
                    Some((class, tag, rest)) => if class != CONTEXT_SPECIFIC || tag != 1 {
                        None
                    } else {
                        match algorithm_of(rest) {
                            Some(mask) => match mask.parameters {
                                Some(Some(parameters)) => match dotted_oid_of(parameters) {
                                    Some(mask_dotted) => Some(
                                        PssModel {
                                            hash: hash.oid,
                                            hash_dotted: hash.dotted,
                                            mask_dotted,
                                        },
                                    ),
                                    None => None,
                                },
                                _ => None,
                            },
                            None => None,
                        }
                    },
                    None => None,
                },
                None => None,
            }
        },
        None => None,
    }
}

/// Reads the hash algorithms in the parameters of an RSASSA-PSS signature.
fn read_pss(content: &[u8]) -> (r: Option<PssHashes>)
    ensures
        match r {
            Some(pss) => pss_of(content@) == Some(pss@),
            None => pss_of(content@) is None,
        },
{
    let (class, tag, rest): (u8, u32, Vec<u8>) = asn1_header(content)?;
    if class != CONTEXT_SPECIFIC || tag != 0 {
        return None;
    }
    let hash = algorithm_identifier(rest.as_slice())?;
    let (class, tag, rest): (u8, u32, Vec<u8>) = asn1_header(hash.rest.as_slice())?;
    if class != CONTEXT_SPECIFIC || tag != 1 {
        return None;
    }
    let mask = algorithm_identifier(rest.as_slice())?;
    match mask.parameters.value {
        Some(Some(parameters)) => {
            let mask_dotted = leading_oid(parameters.as_slice())?;
            Some(PssHashes { hash: hash.oid, hash_dotted: hash.dotted, mask_dotted })
        },
        _ => None,
    }
}

/// Whether a key with the algorithm `oid` is an RSA key.
pub open spec fn is_rsa_key(oid: Seq<u8>) -> bool {
    oid == KnownOid::Rsa.bytes() || oid == KnownOid::RsassaPss.bytes()
}

/// What is checked of the certificate encoded in `der`.
pub open spec fn certificate_of(der: Seq<u8>) -> Option<CertificateModel> {
    match (
        fields_of(der),
        validity_of(der),
        parameters_of(der),
        usage_of(der),
        extensions_of(der),
    ) {
        (Some(fields), Some(validity), Some(parameters), Some(usage), Some(extensions)) => Some(
            CertificateModel {
                fields,
                validity,
                parameters,
                pss: match parameters.signature {
                    Some(Some(content)) => pss_of(content),
                    _ => None,
                },
                key_numbers: if is_rsa_key(fields.key_oid) {
                    integer_bits_of(fields.key_data)
                } else {
                    None
                },
                usage,
                extensions,
            },
        ),
        _ => None,
    }
}

/// Reads what is checked of a certificate.
pub fn read_certificate(der: &[u8]) -> (r: Option<Certificate>)
    ensures
        match r {
            Some(certificate) => certificate_of(der@) == Some(certificate@),
            None => certificate_of(der@) is None,
        },
        r is Some <==> fields_of(der@) is Some,
{
    let fields = certificate_fields(der)?;
    let validity = certificate_validity(der)?;
    let parameters = certificate_parameters(der)?;
    let usage = certificate_usage(der)?;
    let extensions = certificate_extensions(der)?;
    let pss: Option<PssHashes> = match &parameters.signature.value {
        Some(Some(content)) => read_pss(content.as_slice()),
        _ => None,
    };
    let is_rsa: bool = KnownOid::Rsa.is(fields.key_oid.as_slice()) || KnownOid::RsassaPss.is(
        fields.key_oid.as_slice(),
    );
    let key_numbers: Option<Vec<Option<u64>>> = if is_rsa {
        ber_integer_bits(fields.key_data.as_slice())
    } else {
        None
    };
    Some(Certificate { fields, validity, parameters, pss, key_numbers, usage, extensions })
}

/// Why a certificate is not accepted, and what the log says of it, if anything.
#[derive(Clone, Copy, Debug, PartialEq, Eq)]
pub struct Rejection {
    pub error: Error,
    pub logged: Option<(&'static str, ValidationStatus)>,
}

/// A rejection that the log tells of.
pub open spec fn rejected(description: &'static str) -> Option<Rejection> {
    Some(
        Rejection {
            error: Error::CoseInvalidCert,
            logged: Some((description, ValidationStatus::SigningCredentialInvalid)),
        },
    )
}

/// A rejection that the log does not tell of.
pub open spec fn rejected_silently() -> Option<Rejection> {
    Some(Rejection { error: Error::CoseInvalidCert, logged: None })
}

fn reject(description: &'static str) -> (r: Option<Rejection>)
    ensures
        r == rejected(description),
{
    Some(
        Rejection {
            error: Error::CoseInvalidCert,
            logged: Some((description, ValidationStatus::SigningCredentialInvalid)),
        },
    )
}

fn reject_silently() -> (r: Option<Rejection>)
    ensures
        r == rejected_silently(),
{
    Some(Rejection { error: Error::CoseInvalidCert, logged: None })
}

/// The algorithms that a certificate may be signed with.
pub open spec fn signature_oids() -> Seq<KnownOid> {
    seq![
        KnownOid::Sha256WithRsaEncryption,
        KnownOid::Sha384WithRsaEncryption,
        KnownOid::Sha512WithRsaEncryption,
        KnownOid::EcdsaWithSha256,
        KnownOid::EcdsaWithSha384,
        KnownOid::EcdsaWithSha512,
        KnownOid::RsassaPss,
        KnownOid::Ed25519,
    ]
}

/// The hashes that an RSASSA-PSS signature may use.
pub open spec fn hash_oids() -> Seq<KnownOid> {
    seq![KnownOid::Sha256, KnownOid::Sha384, KnownOid::Sha512]
}

/// The curves that a key may be on.
pub open spec fn curve_oids() -> Seq<KnownOid> {
    seq![KnownOid::Prime256v1, KnownOid::Secp384r1, KnownOid::Secp521r1]
}

/// The types of the extensions that are handled.
pub open spec fn handled_extension_oids() -> Seq<KnownOid> {
    seq![
        KnownOid::AuthorityKeyIdentifier,
        KnownOid::SubjectKeyIdentifier,
        KnownOid::KeyUsage,
        KnownOid::CertificatePolicies,
        KnownOid::PolicyMappings,
        KnownOid::SubjectAltName,
        KnownOid::BasicConstraints,
        KnownOid::NameConstraints,
        KnownOid::PolicyConstraints,
        KnownOid::ExtendedKeyUsage,
        KnownOid::CrlDistributionPoints,
        KnownOid::InhibitAnyPolicy,
        KnownOid::AuthorityInfoAccess,
        KnownOid::NsCertType,
        KnownOid::CrlNumber,
        KnownOid::ReasonCode,
        KnownOid::InvalidityDate,
    ]
}

/// Whether the given second since 1970 is neither before the one bound nor after the other.
pub open spec fn is_within(v: Validity, time: i64) -> bool {
    &&& v.not_before.seconds < time || v.not_before.seconds == time && v.not_before.nanos == 0
    &&& time <= v.not_after.seconds
}

/// What is wrong with the version of a certificate, or with the time at which it is used.
pub open spec fn time_rejection(c: CertificateModel, time: i64) -> Option<Rejection> {
    if c.fields.version != 2 {
        rejected("certificate version incorrect")
    } else if !is_date(time) {
        rejected_silently()
    } else if !is_within(c.validity, time) {
        Some(
            Rejection {
                error: Error::CoseCertExpiration,
                logged: Some(("certificate expired", ValidationStatus::SigningCredentialExpired)),
            },
        )
    } else {
        None
    }
}

/// What is wrong with how a certificate is signed.
pub open spec fn signature_rejection(c: CertificateModel) -> Option<Rejection> {
    if !one_of_oids(c.fields.signature_oid, signature_oids()) {
        rejected("certificate algorithm not supported")
    } else if c.fields.signature_oid != KnownOid::RsassaPss.bytes() {
        None
    } else {
        match (c.parameters.signature, c.pss) {
            (None, _) => rejected("certificate missing algorithm parameters"),
            (Some(Some(_)), Some(pss)) => if pss.hash_dotted != pss.mask_dotted {
                rejected("certificate algorithm error")
            } else if !one_of_oids(pss.hash, hash_oids()) {
                rejected("certificate hash algorithm not supported")
            } else {
                None
            },
            _ => rejected_silently(),
        }
    }
}

/// What is wrong with the key of a certificate.
pub open spec fn key_rejection(c: CertificateModel) -> Option<Rejection> {
    if c.fields.key_oid == KnownOid::EcPublicKey.bytes() {
        match c.parameters.key {
            Some(Some(curve)) => if one_of_oids(curve, curve_oids()) {
                None
            } else {
                rejected("certificate unsupported EC curve")
            },
            _ => rejected_silently(),
        }
    } else if is_rsa_key(c.fields.key_oid) {
        match c.key_numbers {
            Some(numbers) => if numbers.len() < 2 {
                rejected_silently()
            } else {
                match numbers[0] {
                    Some(bits) => if bits < 2048 {
                        rejected("certificate key length too short")
                    } else {
                        None
                    },
                    None => rejected_silently(),
                }
            },
            None => rejected_silently(),
        }
    } else {
        None
    }
}

/// What is wrong with whom a certificate names.
pub open spec fn name_rejection(c: CertificateModel) -> Option<Rejection> {
    if c.fields.is_ca && c.fields.issuer == c.fields.subject {
        rejected("certificate issuer and subject cannot be the same {self-signed disallowed}")
    } else if c.fields.has_issuer_uid || c.fields.has_subject_uid {
        rejected("certificate issuer/subject unique ids are not allowed")
    } else {
        None
    }
}

/// Whether a set of extended key usages may stand together: of OCSP signing and time stamping at
/// most one, and that alone.
pub open spec fn valid_usage_set(u: UsageModel) -> bool {
    &&& !(u.ocsp_signing && u.time_stamping)
    &&& u.ocsp_signing || u.time_stamping ==> !u.client_auth && !u.code_signing
        && !u.email_protection && !u.server_auth && u.other.len() == 0
}

/// What is wrong with the extended key usages of a certificate. `usage_allowed` says whether the
/// acceptance policy allows one of them.
pub open spec fn usage_rejection(c: CertificateModel, usage_allowed: bool) -> Option<Rejection> {
    match c.usage {
        None => rejected_silently(),
        Some(None) => None,
        Some(Some(usage)) => if usage.any {
            rejected("certificate 'any' EKU not allowed")
        } else if !usage_allowed {
            rejected("certificate missing required EKU")
        } else if !valid_usage_set(usage) {
            rejected("certificate invalid set of EKUs")
        } else {
            None
        },
    }
}

/// Whether an extension lets a key that is not an authority's sign certificates.
pub open spec fn oversteps(c: CertificateModel, e: ExtensionModel) -> bool {
    e.key_usage matches Some(usage) && usage.digital_signature && usage.key_cert_sign
        && !c.fields.is_ca
}

/// Whether a certificate has an extension of the given type.
pub open spec fn has_extension(c: CertificateModel, oid: KnownOid) -> bool {
    exists|i: int|
        0 <= i < c.extensions.len() && (#[trigger] c.extensions[i]).parsed && c.extensions[i].oid
            == oid.bytes()
}

/// Whether a certificate's key may be used for signatures.
pub open spec fn may_sign(c: CertificateModel) -> bool {
    exists|i: int|
        0 <= i < c.extensions.len() && ((#[trigger] c.extensions[i]).key_usage matches Some(usage)
            && (usage.digital_signature || usage.key_cert_sign || usage.non_repudiation))
}

/// Whether an extension must be handled and is not.
pub open spec fn unhandled(e: ExtensionModel) -> bool {
    e.critical && !(e.parsed && one_of_oids(e.oid, handled_extension_oids()))
}

/// What is wrong with the extensions of a certificate.
pub open spec fn extension_rejection(c: CertificateModel) -> Option<Rejection> {
    if exists|i: int| 0 <= i < c.extensions.len() && oversteps(c, #[trigger] c.extensions[i]) {
        rejected("certificate missing digitalSignature EKU")
    } else if has_extension(c, KnownOid::AuthorityKeyIdentifier) && (c.fields.is_ca
        ==> has_extension(c, KnownOid::SubjectKeyIdentifier)) && may_sign(c) && (c.usage == Some(
        None::<UsageModel>,
    ) ==> c.fields.is_ca) && forall|i: int|
        0 <= i < c.extensions.len() ==> !unhandled(#[trigger] c.extensions[i]) {
        None
    } else {
        rejected("certificate params incorrect")
    }
}

/// The first thing that is wrong with a certificate, if anything is.
pub open spec fn rejection(c: CertificateModel, time: i64, usage_allowed: bool) -> Option<
    Rejection,
> {
    if time_rejection(c, time) is Some {
        time_rejection(c, time)
    } else if signature_rejection(c) is Some {
        signature_rejection(c)
    } else if key_rejection(c) is Some {
        key_rejection(c)
    } else if name_rejection(c) is Some {
        name_rejection(c)
    } else if usage_rejection(c, usage_allowed) is Some {
        usage_rejection(c, usage_allowed)
    } else {
        extension_rejection(c)
    }
}

/// Whether a time, in seconds since 1970, is within the validity of a certificate.
pub fn is_valid_at(v: Validity, time: i64) -> (r: bool)
    ensures
        r == is_within(v, time),
{
    (v.not_before.seconds < time || v.not_before.seconds == time && v.not_before.nanos == 0) && time
        <= v.not_after.seconds
}

fn check_time(c: &Certificate, time: i64) -> (r: Option<Rejection>)
    ensures
        r == time_rejection(c@, time),
{
    if c.fields.version != 2 {
        return reject("certificate version incorrect");
    }
    if !is_asn1_time(time) {
        return reject_silently();
    }
    if is_valid_at(c.validity, time) {
        None
    } else {
        Some(
            Rejection {
                error: Error::CoseCertExpiration,
                logged: Some(("certificate expired", ValidationStatus::SigningCredentialExpired)),
            },
        )
    }
}

fn check_signature_algorithm(c: &Certificate) -> (r: Option<Rejection>)
    ensures
        r == signature_rejection(c@),
{
    let allowed: Vec<KnownOid> = vec![
        KnownOid::Sha256WithRsaEncryption,
        KnownOid::Sha384WithRsaEncryption,
        KnownOid::Sha512WithRsaEncryption,
        KnownOid::EcdsaWithSha256,
        KnownOid::EcdsaWithSha384,
        KnownOid::EcdsaWithSha512,
        KnownOid::RsassaPss,
        KnownOid::Ed25519,
    ];
    let hashes: Vec<KnownOid> = vec![KnownOid::Sha256, KnownOid::Sha384, KnownOid::Sha512];
    proof {
        assert(allowed@ =~= signature_oids());
        assert(hashes@ =~= hash_oids());
    }
    if !is_one_of_oids(c.fields.signature_oid.as_slice(), &allowed) {
        return reject("certificate algorithm not supported");
    }
    if !KnownOid::RsassaPss.is(c.fields.signature_oid.as_slice()) {
        return None;
    }
    match &c.parameters.signature.value {
        None => reject("certificate missing algorithm parameters"),
        Some(None) => reject_silently(),
        Some(Some(_)) => match &c.pss {
            None => reject_silently(),
            Some(pss) => {
                // must be the same
                if !str_eq(pss.hash_dotted.as_str(), pss.mask_dotted.as_str()) {
                    return reject("certificate algorithm error");
                }
                // check for one of the mandatory types

                if !is_one_of_oids(pss.hash.as_slice(), &hashes) {
                    return reject("certificate hash algorithm not supported");
                }
                None
            },
        },
    }
}

fn check_key(c: &Certificate) -> (r: Option<Rejection>)
    ensures
        r == key_rejection(c@),
{
    let curves: Vec<KnownOid> = vec![
        KnownOid::Prime256v1,
        KnownOid::Secp384r1,
        KnownOid::Secp521r1,
    ];
    proof {
        assert(curves@ =~= curve_oids());
        assert(KnownOid::EcPublicKey.bytes().len() == 7);
        assert(KnownOid::Rsa.bytes().len() == 9);
        assert(KnownOid::RsassaPss.bytes().len() == 9);
    }
    // check curves for SPKI EC algorithms
    if KnownOid::EcPublicKey.is(c.fields.key_oid.as_slice()) {
        return match &c.parameters.key.value {
            Some(Some(curve)) => if is_one_of_oids(curve.as_slice(), &curves) {
                None
            } else {
                reject("certificate unsupported EC curve")
            },
            _ => reject_silently(),
        };
    }
    // check modulus minimum length (for RSA & PSS algorithms)

    if KnownOid::Rsa.is(c.fields.key_oid.as_slice()) || KnownOid::RsassaPss.is(
        c.fields.key_oid.as_slice(),
    ) {
        return match &c.key_numbers {
            Some(numbers) => if numbers.len() < 2 {
                reject_silently()
            } else {
                match numbers[0] {
                    Some(bits) => if bits < 2048 {
                        reject("certificate key length too short")
                    } else {
                        None
                    },
                    None => reject_silently(),
                }
            },
            None => reject_silently(),
        };
    }
    None
}

fn check_names(c: &Certificate) -> (r: Option<Rejection>)
    ensures
        r == name_rejection(c@),
{
    // self signed certs are disallowed
    if c.fields.is_ca && bytes_eq(c.fields.issuer.as_slice(), c.fields.subject.as_slice()) {
        return reject(
            "certificate issuer and subject cannot be the same {self-signed disallowed}",
        );
    }
    // unique ids are not allowed

    if c.fields.has_issuer_uid || c.fields.has_subject_uid {
        return reject("certificate issuer/subject unique ids are not allowed");
    }
    None
}

fn check_usage(c: &Certificate, usage_allowed: bool) -> (r: Option<Rejection>)
    ensures
        r == usage_rejection(c@, usage_allowed),
{
    match &c.usage {
        None => reject_silently(),
        Some(None) => None,
        Some(Some(eku)) => {
            if eku.any {
                return reject("certificate 'any' EKU not allowed");
            }
            if !usage_allowed {
                return reject("certificate missing required EKU");
            }
            // one or the other || either of these two, and no others field

            if (eku.ocsp_signing && eku.time_stamping) || ((eku.ocsp_signing != eku.time_stamping)
                && (eku.client_auth || eku.code_signing || eku.email_protection || eku.server_auth
                || eku.other.len() != 0)) {
                return reject("certificate invalid set of EKUs");
            }
            None
        },
    }
}

fn check_extensions(c: &Certificate) -> (r: Option<Rejection>)
    ensures
        r == extension_rejection(c@),
{
    let handled: Vec<KnownOid> = vec![
        KnownOid::AuthorityKeyIdentifier,
        KnownOid::SubjectKeyIdentifier,
        KnownOid::KeyUsage,
        KnownOid::CertificatePolicies,
        KnownOid::PolicyMappings,
        KnownOid::SubjectAltName,
        KnownOid::BasicConstraints,
        KnownOid::NameConstraints,
        KnownOid::PolicyConstraints,
        KnownOid::ExtendedKeyUsage,
        KnownOid::CrlDistributionPoints,
        KnownOid::InhibitAnyPolicy,
        KnownOid::AuthorityInfoAccess,
        KnownOid::NsCertType,
        KnownOid::CrlNumber,
        KnownOid::ReasonCode,
        KnownOid::InvalidityDate,
    ];
    proof {
        assert(handled@ =~= handled_extension_oids());
    }
    let ghost m = c@;
    let mut aki_good: bool = false;
    let mut ski_good: bool = false;
    let mut key_usage_good: bool = false;
    let mut handled_all_critical: bool = true;
    let mut i: usize = 0;
    while i < c.extensions.len()
        invariant
            i <= c.extensions@.len(),
            m == c@,
            m.extensions.len() == c.extensions@.len(),
            handled@ == handled_extension_oids(),
            forall|k: int| 0 <= k < i ==> !oversteps(m, #[trigger] m.extensions[k]),
            aki_good <==> exists|k: int|
                0 <= k < i && (#[trigger] m.extensions[k]).parsed && m.extensions[k].oid
                    == KnownOid::AuthorityKeyIdentifier.bytes(),
            ski_good <==> exists|k: int|
                0 <= k < i && (#[trigger] m.extensions[k]).parsed && m.extensions[k].oid
                    == KnownOid::SubjectKeyIdentifier.bytes(),
            key_usage_good <==> exists|k: int|
                0 <= k < i && ((#[trigger] m.extensions[k]).key_usage matches Some(usage) && (
                usage.digital_signature || usage.key_cert_sign || usage.non_repudiation)),
            handled_all_critical <==> forall|k: int|
                0 <= k < i ==> !unhandled(#[trigger] m.extensions[k]),
        decreases c.extensions@.len() - i,
    {
        let e: &Extension = &c.extensions[i];
        proof {
            assert(m.extensions[i as int] == e@);
        }
        if e.parsed && KnownOid::AuthorityKeyIdentifier.is(e.oid.as_slice()) {
            aki_good = true;
        }
        if e.parsed && KnownOid::SubjectKeyIdentifier.is(e.oid.as_slice()) {
            ski_good = true;
        }
        if let Some(ku) = e.key_usage {
            if ku.digital_signature && ku.key_cert_sign && !c.fields.is_ca {
                proof {
                    assert(oversteps(m, m.extensions[i as int]));
                }
                return reject("certificate missing digitalSignature EKU");
            }
            if ku.digital_signature || ku.key_cert_sign || ku.non_repudiation {
                key_usage_good = true;
            }
        }
        if e.critical && !(e.parsed && is_one_of_oids(e.oid.as_slice(), &handled)) {
            // unhandled critical extension
            handled_all_critical = false;
            proof {
                assert(unhandled(m.extensions[i as int]));
            }
        }
        i = i + 1;
    }
    // if cert is a CA must have valid SubjectKeyIdentifier
    let ski_good: bool = if c.fields.is_ca {
        ski_good
    } else {
        true
    };
    // extended key usages must be present if it is not a CA
    let usage_good: bool = match &c.usage {
        Some(None) => c.fields.is_ca,
        _ => true,
    };
    if aki_good && ski_good && key_usage_good && usage_good && handled_all_critical {
        None
    } else {
        reject("certificate params incorrect")
    }
}

/// The first thing that is wrong with a certificate, if anything is.
///
/// `time` is when the certificate is used, in seconds since 1970; `usage_allowed` says whether the
/// acceptance policy allows one of its extended key usages.
pub fn check_certificate(c: &Certificate, time: i64, usage_allowed: bool) -> (r: Option<Rejection>)
    ensures
        r == rejection(c@, time, usage_allowed),
{
    if let Some(found) = check_time(c, time) {
        return Some(found);
    }
    if let Some(found) = check_signature_algorithm(c) {
        return Some(found);
    }
    if let Some(found) = check_key(c) {
        return Some(found);
    }
    if let Some(found) = check_names(c) {
        return Some(found);
    }
    if let Some(found) = check_usage(c, usage_allowed) {
        return Some(found);
    }
    check_extensions(c)
}

/// What the checks of the certificate encoded in `der` find.
pub open spec fn cert_rejection(
    der: Seq<u8>,
    signing_time: Option<i64>,
    now: i64,
    usage_allowed: bool,
) -> Option<Rejection> {
    match certificate_of(der) {
        None => rejected("certificate could not be parsed"),
        Some(c) => rejection(
            c,
            match signing_time {
                Some(t) => t,
                None => now,
            },
            usage_allowed,
        ),
    }
}

/// What a rejection leaves in the log.
pub open spec fn logged(log: StatusModel, found: Option<Rejection>) -> StatusModel {
    match found {
        Some(rejection) => match rejection.logged {
            Some((description, status)) => log.with(
                failure(description, "check_cert_alg", Some(status), rejection.error),
            ),
            None => log,
        },
        None => log,
    }
}

/// What a rejection is reported as.
pub open spec fn verdict(found: Option<Rejection>) -> Result<(), Error> {
    match found {
        Some(rejection) => Err(rejection.error),
        None => Ok(()),
    }
}

/// Logs and reports a rejection.
pub fn report(found: Option<Rejection>, validation_log: &mut StatusTracker) -> (r: Result<
    (),
    Error,
>)
    ensures
        r == verdict(found),
        final(validation_log)@ == logged(old(validation_log)@, found),
{
    match found {
        Some(rejection) => {
            if let Some((description, status)) = rejection.logged {
                validation_log.failure_no_throw(
                    description,
                    "check_cert_alg",
                    Some(status),
                    rejection.error,
                );
            }
            Err(rejection.error)
        },
        None => Ok(()),
    }
}

/// Checks that a signature may be made with a certificate.
///
/// The certificate has to be valid at the signing time where that is known, else now, in seconds
/// since 1970. `usage_allowed` says whether the acceptance policy allows one of its extended key
/// usages.
pub fn check_cert(
    ca_der_bytes: &[u8],
    usage_allowed: bool,
    validation_log: &mut StatusTracker,
    signing_time: Option<i64>,
    now: i64,
) -> (r: Result<(), Error>)
    ensures
        r == verdict(cert_rejection(ca_der_bytes@, signing_time, now, usage_allowed)),
        final(validation_log)@ == logged(
            old(validation_log)@,
            cert_rejection(ca_der_bytes@, signing_time, now, usage_allowed),
        ),
{
    let time: i64 = match signing_time {
        Some(t) => t,
        None => now,
    };
    let found: Option<Rejection> = match read_certificate(ca_der_bytes) {
        None => reject("certificate could not be parsed"),
        Some(certificate) => check_certificate(&certificate, time, usage_allowed),
    };
    report(found, validation_log)
}

} // verus!
