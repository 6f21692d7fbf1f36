//! What the certificate checks read of X.509 certificates, and of the ASN.1 structures in them.
//!
//! The structures are parsed by the `x509-parser`, `asn1-rs` and `x509-certificate` crates. Object
//! identifiers are given by their encoded bytes.

use vstd::prelude::*;

use asn1_rs::{Any, FromDer, Header};
use x509_parser::certificate::X509Certificate;
use x509_parser::der_parser::ber::parse_ber_sequence;
use x509_parser::extensions::ParsedExtension;
use x509_parser::time::ASN1Time;
use x509_parser::x509::AlgorithmIdentifier;

verus! {

/// The fields of a certificate.
#[derive(Clone, Debug, PartialEq, Eq)]
pub struct CertificateFields {
    /// The version as it is encoded, one less than its usual number.
    pub version: u32,
    /// The algorithm that the certificate is signed with.
    pub signature_oid: Vec<u8>,
    /// The algorithm of the certificate's key.
    pub key_oid: Vec<u8>,
    /// The key itself.
    pub key_data: Vec<u8>,
    /// The key with its algorithm, encoded.
    pub key_info: Vec<u8>,
    /// The name of the issuer, encoded.
    pub issuer: Vec<u8>,
    /// The name of the subject, encoded.
    pub subject: Vec<u8>,
    /// The serial number, most significant byte first.
    pub serial: Vec<u8>,
    /// Whether the certificate is that of a certification authority.
    pub is_ca: bool,
    pub has_issuer_uid: bool,
    pub has_subject_uid: bool,
}

/// What [`CertificateFields`] hold.
#[verifier::ext_equal]
pub struct FieldsModel {
    pub version: u32,
    pub signature_oid: Seq<u8>,
    pub key_oid: Seq<u8>,
    pub key_data: Seq<u8>,
    pub key_info: Seq<u8>,
    pub issuer: Seq<u8>,
    pub subject: Seq<u8>,
    pub serial: Seq<u8>,
    pub is_ca: bool,
    pub has_issuer_uid: bool,
    pub has_subject_uid: bool,
}

impl View for CertificateFields {
    type V = FieldsModel;

    open spec fn view(&self) -> FieldsModel {
        FieldsModel {
            version: self.version,
            signature_oid: self.signature_oid@,
            key_oid: self.key_oid@,
            key_data: self.key_data@,
            key_info: self.key_info@,
            issuer: self.issuer@,
            subject: self.subject@,
            serial: self.serial@,
            is_ca: self.is_ca,
            has_issuer_uid: self.has_issuer_uid,
            has_subject_uid: self.has_subject_uid,
        }
    }
}

/// A time: seconds since 1970, and nanoseconds from there on.
#[derive(Clone, Copy, Debug, PartialEq, Eq, Structural)]
pub struct Moment {
    pub seconds: i64,
    pub nanos: u32,
}

/// The times between which a certificate is valid.
#[derive(Clone, Copy, Debug, PartialEq, Eq, Structural)]
pub struct Validity {
    pub not_before: Moment,
    pub not_after: Moment,
}

/// A part of a structure that may be absent, or present but not of the type asked for.
#[derive(Clone, Debug, PartialEq, Eq)]
pub struct Part {
    pub value: Option<Option<Vec<u8>>>,
}

impl View for Part {
    type V = Option<Option<Seq<u8>>>;

    open spec fn view(&self) -> Option<Option<Seq<u8>>> {
        match self.value {
            None => None,
            Some(None) => Some(None),
            Some(Some(bytes)) => Some(Some(bytes@)),
        }
    }
}

/// The parameters of the two algorithms that a certificate names.
#[derive(Clone, Debug, PartialEq, Eq)]
pub struct CertificateParameters {
    /// Of the signature's algorithm, the content of the sequence.
    pub signature: Part,
    /// Of the key's algorithm, the object identifier.
    pub key: Part,
}

/// What [`CertificateParameters`] hold.
#[verifier::ext_equal]
pub struct ParametersModel {
    pub signature: Option<Option<Seq<u8>>>,
    pub key: Option<Option<Seq<u8>>>,
}

impl View for CertificateParameters {
    type V = ParametersModel;

    open spec fn view(&self) -> ParametersModel {
        ParametersModel { signature: self.signature@, key: self.key@ }
    }
}

/// The extended key usages of a certificate.
#[derive(Clone, Debug, PartialEq, Eq)]
pub struct ExtendedKeyUsage {
    pub any: bool,
    pub server_auth: bool,
    pub client_auth: bool,
    pub code_signing: bool,
    pub email_protection: bool,
    pub time_stamping: bool,
    pub ocsp_signing: bool,
    /// The object identifiers of the others.
    pub other: Vec<Vec<u8>>,
}

/// What an [`ExtendedKeyUsage`] holds.
#[verifier::ext_equal]
pub struct UsageModel {
    pub any: bool,
    pub server_auth: bool,
    pub client_auth: bool,
    pub code_signing: bool,
    pub email_protection: bool,
    pub time_stamping: bool,
    pub ocsp_signing: bool,
    pub other: Seq<Seq<u8>>,
}

impl View for ExtendedKeyUsage {
    type V = UsageModel;

    open spec fn view(&self) -> UsageModel {
        UsageModel {
            any: self.any,
            server_auth: self.server_auth,
            client_auth: self.client_auth,
            code_signing: self.code_signing,
            email_protection: self.email_protection,
            time_stamping: self.time_stamping,
            ocsp_signing: self.ocsp_signing,
            other: self.other@.map_values(|oid: Vec<u8>| oid@),
        }
    }
}

/// The key usages of a certificate that the checks ask for.
#[derive(Clone, Copy, Debug, PartialEq, Eq, Structural)]
pub struct KeyUsage {
    pub digital_signature: bool,
    pub key_cert_sign: bool,
    pub non_repudiation: bool,
}

/// An extension of a certificate.
#[derive(Clone, Debug, PartialEq, Eq)]
pub struct Extension {
    pub oid: Vec<u8>,
    pub critical: bool,
    /// Whether the extension's type is known and its value was understood.
    pub parsed: bool,
    /// Where the extension gives key usages, these.
    pub key_usage: Option<KeyUsage>,
}

/// What an [`Extension`] holds.
#[verifier::ext_equal]
pub struct ExtensionModel {
    pub oid: Seq<u8>,
    pub critical: bool,
    pub parsed: bool,
    pub key_usage: Option<KeyUsage>,
}

impl View for Extension {
    type V = ExtensionModel;

    open spec fn view(&self) -> ExtensionModel {
        ExtensionModel {
            oid: self.oid@,
            critical: self.critical,
            parsed: self.parsed,
            key_usage: self.key_usage,
        }
    }
}

/// The fields of the certificate encoded in `der`.
pub uninterp spec fn fields_of(der: Seq<u8>) -> Option<FieldsModel>;

/// The algorithm parameters of the certificate encoded in `der`.
pub uninterp spec fn parameters_of(der: Seq<u8>) -> Option<ParametersModel>;

/// The extended key usages of the certificate encoded in `der`: within the first option, none
/// where they are malformed or given twice; within the second, none where they are not given.
pub uninterp spec fn usage_of(der: Seq<u8>) -> Option<Option<Option<UsageModel>>>;

/// The extensions of the certificate encoded in `der`.
pub uninterp spec fn extensions_of(der: Seq<u8>) -> Option<Seq<ExtensionModel>>;

/// The times between which the certificate encoded in `der` is valid.
pub uninterp spec fn validity_of(der: Seq<u8>) -> Option<Validity>;

/// The organizations that the subject of the certificate encoded in `der` names, each none where
/// it is not text.
pub uninterp spec fn organizations_of(der: Seq<u8>) -> Option<Seq<Option<Seq<char>>>>;

/// The PEM form of the certificate encoded in `der`.
pub uninterp spec fn pem_of(der: Seq<u8>) -> Option<Seq<u8>>;

/// The class and the tag of the ASN.1 header at the start of `i`, and what follows it.
pub uninterp spec fn header_of(i: Seq<u8>) -> Option<(u8, u32, Seq<u8>)>;

/// The algorithm identifier at the start of `i`.
pub uninterp spec fn algorithm_of(i: Seq<u8>) -> Option<AlgorithmModel>;

/// The object identifier at the start of `i`, in dotted form.
pub uninterp spec fn dotted_oid_of(i: Seq<u8>) -> Option<Seq<char>>;

/// The lengths in bits of the elements of the sequence at the start of `i`, each none where it is
/// no integer.
pub uninterp spec fn integer_bits_of(i: Seq<u8>) -> Option<Seq<Option<u64>>>;

/// `x509_parser::X509Certificate::from_der`, and the fields of what it returns.
#[verifier::external_body]
pub(crate) fn certificate_fields(der: &[u8]) -> (r: Option<CertificateFields>)
    ensures
        match r {
            Some(fields) => fields_of(der@) == Some(fields@),
            None => fields_of(der@) is None,
        },
{
    let (_, cert) = X509Certificate::from_der(der).ok()?;
    let key = cert.public_key();
    Some(CertificateFields {
        version: cert.version().0,
        signature_oid: cert.signature_algorithm.algorithm.as_bytes().to_vec(),
        key_oid: key.algorithm.algorithm.as_bytes().to_vec(),
        key_data: key.subject_public_key.data.to_vec(),
        key_info: key.raw.to_vec(),
        issuer: cert.issuer().as_raw().to_vec(),
        subject: cert.subject().as_raw().to_vec(),
        serial: cert.serial.to_bytes_be(),
        is_ca: cert.is_ca(),
        has_issuer_uid: cert.issuer_uid.is_some(),
        has_subject_uid: cert.subject_uid.is_some(),
    })
}

/// `asn1_rs::Any::as_sequence` and `asn1_rs::Any::as_oid` on the parameters of the algorithms of
/// a certificate, which is there to be read where its fields are.
#[verifier::external_body]
pub(crate) fn certificate_parameters(der: &[u8]) -> (r: Option<CertificateParameters>)
    ensures
        r is Some <==> fields_of(der@) is Some,
        match r {
            Some(parameters) => parameters_of(der@) == Some(parameters@),
            None => parameters_of(der@) is None,
        },
{
    let (_, cert) = X509Certificate::from_der(der).ok()?;
    let signature = cert.signature_algorithm.parameters.as_ref();
    let key = cert.public_key().algorithm.parameters.as_ref();
    let content = |p: &Any| p.as_sequence().ok().map(|s| s.content.to_vec());
    let oid = |p: &Any| p.as_oid().ok().map(|o| o.as_bytes().to_vec());
    Some(CertificateParameters {
        signature: Part { value: signature.map(content) },
        key: Part { value: key.map(oid) },
    })
}

/// `x509_parser::TbsCertificate::extended_key_usage`, of a certificate that is there to be read
/// where its fields are.
#[verifier::external_body]
pub(crate) fn certificate_usage(der: &[u8]) -> (r: Option<Option<Option<ExtendedKeyUsage>>>)
    ensures
        r is Some <==> fields_of(der@) is Some,
        match r {
            Some(Some(Some(usage))) => usage_of(der@) == Some(Some(Some(usage@))),
            Some(Some(None)) => usage_of(der@) == Some(Some(None::<UsageModel>)),
            Some(None) => usage_of(der@) == Some(None::<Option<UsageModel>>),
            None => usage_of(der@) is None,
        },
{
    let (_, cert) = X509Certificate::from_der(der).ok()?;
    let usage = cert.extended_key_usage().ok();
    Some(usage.map(|found| found.map(|e| ExtendedKeyUsage {
        any: e.value.any,
        server_auth: e.value.server_auth,
        client_auth: e.value.client_auth,
        code_signing: e.value.code_signing,
        email_protection: e.value.email_protection,
        time_stamping: e.value.time_stamping,
        ocsp_signing: e.value.ocsp_signing,
        other: e.value.other.iter().map(|o| o.as_bytes().to_vec()).collect(),
    })))
}

/// `x509_parser::TbsCertificate::extensions`, of a certificate that is there to be read where its
/// fields are. An extension was understood unless it is of the variant `Unparsed`,
/// `UnsupportedExtension` or `ParseError`.
#[verifier::external_body]
pub(crate) fn certificate_extensions(der: &[u8]) -> (r: Option<Vec<Extension>>)
    ensures
        r is Some <==> fields_of(der@) is Some,
        match r {
            Some(list) => extensions_of(der@) == Some(list@.map_values(|e: Extension| e@)),
            None => extensions_of(der@) is None,
        },
{
    let (_, cert) = X509Certificate::from_der(der).ok()?;
    Some(cert.extensions().iter().map(|e| Extension {
        oid: e.oid.as_bytes().to_vec(),
        critical: e.critical,
        parsed: !matches!(e.parsed_extension(), ParsedExtension::Unparsed
            | ParsedExtension::UnsupportedExtension { .. } | ParsedExtension::ParseError { .. }),
        key_usage: match e.parsed_extension() {
            ParsedExtension::KeyUsage(ku) => Some(KeyUsage {
                digital_signature: ku.digital_signature(),
                key_cert_sign: ku.key_cert_sign(), non_repudiation: ku.non_repudiation() }),
            _ => None,
        },
    }).collect())
}

/// `x509_parser::TbsCertificate::validity`, of a certificate that is there to be read where its
/// fields are: the two bounds, each by `unix_timestamp` and `nanosecond` of
/// `x509_parser::ASN1Time::to_datetime`.
#[verifier::external_body]
pub(crate) fn certificate_validity(der: &[u8]) -> (r: Option<Validity>)
    ensures
        r is Some <==> fields_of(der@) is Some,
        r == validity_of(der@),
{
    let (_, cert) = X509Certificate::from_der(der).ok()?;
    let from = cert.validity().not_before.to_datetime();
    let to = cert.validity().not_after.to_datetime();
    Some(Validity {
        not_before: Moment { seconds: from.unix_timestamp(), nanos: from.nanosecond() },
        not_after: Moment { seconds: to.unix_timestamp(), nanos: to.nanosecond() },
    })
}

/// Whether the given second since 1970 is in one of the years from -9999 to 9999.
pub open spec fn is_date(seconds: i64) -> bool {
    -377_705_116_800 <= seconds <= 253_402_300_799
}

/// `x509_parser::ASN1Time::from_timestamp`: it takes the times whose years have at most four
/// digits, as the dates of the `time` crate do without its feature `large-dates`.
#[verifier::external_body]
pub(crate) fn is_asn1_time(seconds: i64) -> (r: bool)
    ensures
        r == is_date(seconds),
{
    ASN1Time::from_timestamp(seconds).is_ok()
}

/// Texts that may be missing.
pub open spec fn texts(list: Seq<Option<String>>) -> Seq<Option<Seq<char>>> {
    list.map_values(
        |text: Option<String>|
            match text {
                Some(text) => Some(text@),
                None => None,
            },
    )
}

/// `x509_parser::X509Name::iter_organization` on the subject of a certificate, which is there to
/// be read where its fields are, and `x509_parser::AttributeTypeAndValue::as_str` on each item.
#[verifier::external_body]
pub(crate) fn certificate_organizations(der: &[u8]) -> (r: Option<Vec<Option<String>>>)
    ensures
        r is Some <==> fields_of(der@) is Some,
        match r {
            Some(names) => organizations_of(der@) == Some(texts(names@)),
            None => organizations_of(der@) is None,
        },
{
    let (_, cert) = X509Certificate::from_der(der).ok()?;
    let names = cert.subject().iter_organization();
    Some(names.map(|name| name.as_str().ok().map(String::from)).collect())
}

/// `x509_certificate::X509Certificate::from_der` and `write_pem`.
#[verifier::external_body]
pub(crate) fn certificate_pem(der: &[u8]) -> (r: Option<Vec<u8>>)
    ensures
        match r {
            Some(pem) => pem_of(der@) == Some(pem@),
            None => pem_of(der@) is None,
        },
{
    let cert = x509_certificate::X509Certificate::from_der(der).ok()?;
    let mut pem: Vec<u8> = Vec::new();
    cert.write_pem(&mut pem).ok()?;
    Some(pem)
}

/// `asn1_rs::Header::from_der`: the class of the header, its tag, and what follows it.
#[verifier::external_body]
pub(crate) fn asn1_header(i: &[u8]) -> (r: Option<(u8, u32, Vec<u8>)>)
    ensures
        match r {
            Some((class, tag, rest)) => header_of(i@) == Some((class, tag, rest@)),
            None => header_of(i@) is None,
        },
{
    let (rest, header) = <Header as FromDer>::from_der(i).ok()?;
    Some((header.class() as u8, header.tag().0, rest.to_vec()))
}

/// An algorithm identifier, and what follows it.
#[derive(Clone, Debug, PartialEq, Eq)]
pub struct AlgorithmId {
    pub oid: Vec<u8>,
    /// The object identifier in dotted form.
    pub dotted: String,
    /// The content of the sequence that the parameters are.
    pub parameters: Part,
    pub rest: Vec<u8>,
}

/// What an [`AlgorithmId`] holds.
#[verifier::ext_equal]
pub struct AlgorithmModel {
    pub oid: Seq<u8>,
    pub dotted: Seq<char>,
    pub parameters: Option<Option<Seq<u8>>>,
    pub rest: Seq<u8>,
}

impl View for AlgorithmId {
    type V = AlgorithmModel;

    open spec fn view(&self) -> AlgorithmModel {
        AlgorithmModel {
            oid: self.oid@,
            dotted: self.dotted@,
            parameters: self.parameters@,
            rest: self.rest@,
        }
    }
}

/// `x509_parser::AlgorithmIdentifier::from_der`, with `asn1_rs::Any::as_sequence` on the
/// parameters.
#[verifier::external_body]
pub(crate) fn algorithm_identifier(i: &[u8]) -> (r: Option<AlgorithmId>)
    ensures
        match r {
            Some(algorithm) => algorithm_of(i@) == Some(algorithm@),
            None => algorithm_of(i@) is None,
        },
{
    let (rest, id) = AlgorithmIdentifier::from_der(i).ok()?;
    let content = |p: &Any| p.as_sequence().ok().map(|s| s.content.to_vec());
    Some(AlgorithmId {
        oid: id.algorithm.as_bytes().to_vec(),
        dotted: id.algorithm.to_id_string(),
        parameters: Part { value: id.parameters.as_ref().map(content) },
        rest: rest.to_vec(),
    })
}

/// `asn1_rs::Any::from_der`, with `as_oid` and `to_id_string` on what it returns.
#[verifier::external_body]
pub(crate) fn leading_oid(i: &[u8]) -> (r: Option<String>)
    ensures
        match r {
            Some(dotted) => dotted_oid_of(i@) == Some(dotted@),
            None => dotted_oid_of(i@) is None,
        },
{
    let (_, any) = <Any as FromDer>::from_der(i).ok()?;
    Some(any.as_oid().ok()?.to_id_string())
}

/// `der_parser::ber::parse_ber_sequence`, with `as_bigint` and `bits` on each of the elements.
#[verifier::external_body]
pub(crate) fn ber_integer_bits(i: &[u8]) -> (r: Option<Vec<Option<u64>>>)
    ensures
        match r {
            Some(bits) => integer_bits_of(i@) == Some(bits@),
            None => integer_bits_of(i@) is None,
        },
{
    let (_, object) = parse_ber_sequence(i).ok()?;
    let elements = object.as_sequence().ok()?;
    Some(elements.iter().map(|e| e.as_bigint().ok().map(|n| n.bits())).collect())
}

} // verus!
