//! What holds of the checks of certificates.
//!
//! The laws speak of object identifiers by their numbers, and of the parts of a certificate.

use vstd::prelude::*;

use crate::cose::certificate::{
    cert_rejection, certificate_of, extension_rejection, has_extension, is_rsa_key, key_rejection,
    logged, may_sign, oversteps, pss_of, rejection, signature_rejection, time_rejection, unhandled,
    verdict, Certificate, CertificateModel, PssHashes, PssModel, Rejection,
};
use crate::cose::certificate::{curve_oids, handled_extension_oids, hash_oids, signature_oids};
use crate::cose::oid::{one_of_oids, KnownOid};
use crate::cose::status::{StatusModel, ValidationStatus};
use crate::cose::x509::{
    algorithm_of, dotted_oid_of, extensions_of, fields_of, header_of, integer_bits_of,
    parameters_of, usage_of, validity_of, AlgorithmModel, ExtendedKeyUsage, UsageModel, Validity,
};
use crate::error::Error;

verus! {

// Object identifiers.

/// The digits of `n` to the base 128 but for the last, each with the sign that more follow.
pub open spec fn leading_digits(n: nat) -> Seq<u8>
    decreases n,
{
    if n == 0 {
        Seq::empty()
    } else {
        leading_digits(n / 128) + seq![(128 + n % 128) as u8]
    }
}

/// The encoded form of one number of an object identifier.
pub open spec fn arc_bytes(n: nat) -> Seq<u8> {
    leading_digits(n / 128) + seq![(n % 128) as u8]
}

/// The encoded form of the object identifier with the given numbers: the first two in one byte,
/// the others one after the other.
pub open spec fn oid_bytes(arcs: Seq<nat>) -> Seq<u8>
    decreases arcs.len(),
{
    if arcs.len() <= 2 {
        seq![(40 * arcs[0] + arcs[1]) as u8]
    } else {
        oid_bytes(arcs.drop_last()) + arc_bytes(arcs.last())
    }
}

proof fn lemma_push(arcs: Seq<nat>, n: nat)
    requires
        arcs.len() >= 2,
    ensures
        oid_bytes(arcs.push(n)) == oid_bytes(arcs) + arc_bytes(n),
{
    assert(arcs.push(n).drop_last() =~= arcs);
}

proof fn lemma_small_arc(n: nat)
    requires
        n < 128,
    ensures
        arc_bytes(n) == seq![n as u8],
{
    assert(arc_bytes(n) =~= seq![n as u8]);
}

proof fn lemma_arc(n: nat)
    requires
        128 <= n < 0x20_0000,
    ensures
        n < 0x4000 ==> arc_bytes(n) == seq![(128 + n / 128) as u8, (n % 128) as u8],
        n >= 0x4000 ==> arc_bytes(n) == seq![
            (128 + n / 128 / 128) as u8,
            (128 + (n / 128) % 128) as u8,
            (n % 128) as u8,
        ],
{
    reveal_with_fuel(leading_digits, 3);
    if n < 0x4000 {
        assert(n / 128 / 128 == 0);
        assert(arc_bytes(n) =~= seq![(128 + n / 128) as u8, (n % 128) as u8]);
    } else {
        assert(n / 128 / 128 / 128 == 0);
        assert(arc_bytes(n) =~= seq![
            (128 + n / 128 / 128) as u8,
            (128 + (n / 128) % 128) as u8,
            (n % 128) as u8,
        ]);
    }
}

/// The numbers of the object identifiers that the checks know.
pub open spec fn dotted(oid: KnownOid) -> Seq<nat> {
    match oid {
        KnownOid::Rsa => pkcs1(1),
        KnownOid::RsassaPss => pkcs1(10),
        KnownOid::Sha256WithRsaEncryption => pkcs1(11),
        KnownOid::Sha384WithRsaEncryption => pkcs1(12),
        KnownOid::Sha512WithRsaEncryption => pkcs1(13),
        KnownOid::EcPublicKey => seq![1, 2, 840, 10045, 2, 1],
        KnownOid::EcdsaWithSha256 => seq![1, 2, 840, 10045, 4, 3, 2],
        KnownOid::EcdsaWithSha384 => seq![1, 2, 840, 10045, 4, 3, 3],
        KnownOid::EcdsaWithSha512 => seq![1, 2, 840, 10045, 4, 3, 4],
        KnownOid::Prime256v1 => seq![1, 2, 840, 10045, 3, 1, 7],
        KnownOid::Ed25519 => seq![1, 3, 101, 112],
        KnownOid::Sha256 => sha2(1),
        KnownOid::Sha384 => sha2(2),
        KnownOid::Sha512 => sha2(3),
        KnownOid::Secp384r1 => seq![1, 3, 132, 0, 34],
        KnownOid::Secp521r1 => seq![1, 3, 132, 0, 35],
        KnownOid::SubjectKeyIdentifier => extension(14),
        KnownOid::KeyUsage => extension(15),
        KnownOid::SubjectAltName => extension(17),
        KnownOid::BasicConstraints => extension(19),
        KnownOid::CrlNumber => extension(20),
        KnownOid::ReasonCode => extension(21),
        KnownOid::InvalidityDate => extension(24),
        KnownOid::NameConstraints => extension(30),
        KnownOid::CrlDistributionPoints => extension(31),
        KnownOid::CertificatePolicies => extension(32),
        KnownOid::PolicyMappings => extension(33),
        KnownOid::AuthorityKeyIdentifier => extension(35),
        KnownOid::PolicyConstraints => extension(36),
        KnownOid::ExtendedKeyUsage => extension(37),
        KnownOid::InhibitAnyPolicy => extension(54),
        KnownOid::AuthorityInfoAccess => seq![1, 3, 6, 1, 5, 5, 7, 1, 1],
        KnownOid::NsCertType => seq![2, 16, 840, 1, 113730, 1, 1],
    }
}

/// An identifier of the RSA standard.
pub open spec fn pkcs1(n: nat) -> Seq<nat> {
    seq![1, 2, 840, 113549, 1, 1, n]
}

/// An identifier of a SHA-2 hash.
pub open spec fn sha2(n: nat) -> Seq<nat> {
    seq![2, 16, 840, 1, 101, 3, 4, 2, n]
}

/// An identifier of an extension of certificates.
pub open spec fn extension(n: nat) -> Seq<nat> {
    seq![2, 5, 29, n]
}

proof fn lemma_pkcs1(n: nat)
    requires
        n < 128,
    ensures
        oid_bytes(pkcs1(n)) == seq![0x2au8, 0x86, 0x48, 0x86, 0xf7, 0x0d, 0x01, 0x01, n as u8],
{
    let a0: Seq<nat> = seq![1, 2];
    let a1 = a0.push(840);
    lemma_push(a0, 840);
    lemma_arc(840);
    let a2 = a1.push(113549);
    lemma_push(a1, 113549);
    lemma_arc(113549);
    let a3 = a2.push(1);
    lemma_push(a2, 1);
    lemma_small_arc(1);
    let a4 = a3.push(1);
    lemma_push(a3, 1);
    lemma_small_arc(1);
    let a5 = a4.push(n);
    lemma_push(a4, n);
    lemma_small_arc(n);
    assert(pkcs1(n) =~= a5);
    assert(oid_bytes(a5) =~= seq![0x2au8, 0x86, 0x48, 0x86, 0xf7, 0x0d, 0x01, 0x01, n as u8]);
}

proof fn lemma_sha2(n: nat)
    requires
        n < 128,
    ensures
        oid_bytes(sha2(n)) == seq![0x60u8, 0x86, 0x48, 0x01, 0x65, 0x03, 0x04, 0x02, n as u8],
{
    let a0: Seq<nat> = seq![2, 16];
    let a1 = a0.push(840);
    lemma_push(a0, 840);
    lemma_arc(840);
    let a2 = a1.push(1);
    lemma_push(a1, 1);
    lemma_small_arc(1);
    let a3 = a2.push(101);
    lemma_push(a2, 101);
    lemma_small_arc(101);
    let a4 = a3.push(3);
    lemma_push(a3, 3);
    lemma_small_arc(3);
    let a5 = a4.push(4);
    lemma_push(a4, 4);
    lemma_small_arc(4);
    let a6 = a5.push(2);
    lemma_push(a5, 2);
    lemma_small_arc(2);
    let a7 = a6.push(n);
    lemma_push(a6, n);
    lemma_small_arc(n);
    assert(sha2(n) =~= a7);
    assert(oid_bytes(a7) =~= seq![0x60u8, 0x86, 0x48, 0x01, 0x65, 0x03, 0x04, 0x02, n as u8]);
}

proof fn lemma_extension(n: nat)
    requires
        n < 128,
    ensures
        oid_bytes(extension(n)) == seq![0x55u8, 0x1d, n as u8],
{
    let a0: Seq<nat> = seq![2, 5];
    let a1 = a0.push(29);
    lemma_push(a0, 29);
    lemma_small_arc(29);
    let a2 = a1.push(n);
    lemma_push(a1, n);
    lemma_small_arc(n);
    assert(extension(n) =~= a2);
    assert(oid_bytes(a2) =~= seq![0x55u8, 0x1d, n as u8]);
}

proof fn lemma_ecdsa(n: nat)
    requires
        n < 128,
    ensures
        oid_bytes(seq![1, 2, 840, 10045, 4, 3, n]) == seq![0x2au8, 0x86, 0x48, 0xce, 0x3d, 0x04, 0x03, n as u8],
{
    let a0: Seq<nat> = seq![1, 2];
    let a1 = a0.push(840);
    lemma_push(a0, 840);
    lemma_arc(840);
    let a2 = a1.push(10045);
    lemma_push(a1, 10045);
    lemma_arc(10045);
    let a3 = a2.push(4);
    lemma_push(a2, 4);
    lemma_small_arc(4);
    let a4 = a3.push(3);
    lemma_push(a3, 3);
    lemma_small_arc(3);
    let a5 = a4.push(n);
    lemma_push(a4, n);
    lemma_small_arc(n);
    assert(seq![1, 2, 840, 10045, 4, 3, n] =~= a5);
    assert(oid_bytes(a5) =~= seq![0x2au8, 0x86, 0x48, 0xce, 0x3d, 0x04, 0x03, n as u8]);
}

proof fn lemma_prime()
    ensures
        oid_bytes(seq![1, 2, 840, 10045, 3, 1, 7]) == seq![0x2au8, 0x86, 0x48, 0xce, 0x3d, 0x03, 0x01, 0x07],
{
    let a0: Seq<nat> = seq![1, 2];
    let a1 = a0.push(840);
    lemma_push(a0, 840);
    lemma_arc(840);
    let a2 = a1.push(10045);
    lemma_push(a1, 10045);
    lemma_arc(10045);
    let a3 = a2.push(3);
    lemma_push(a2, 3);
    lemma_small_arc(3);
    let a4 = a3.push(1);
    lemma_push(a3, 1);
    lemma_small_arc(1);
    let a5 = a4.push(7);
    lemma_push(a4, 7);
    lemma_small_arc(7);
    assert(seq![1, 2, 840, 10045, 3, 1, 7] =~= a5);
    assert(oid_bytes(a5) =~= seq![0x2au8, 0x86, 0x48, 0xce, 0x3d, 0x03, 0x01, 0x07]);
}

proof fn lemma_ec_key()
    ensures
        oid_bytes(seq![1, 2, 840, 10045, 2, 1]) == seq![0x2au8, 0x86, 0x48, 0xce, 0x3d, 0x02, 0x01],
{
    let a0: Seq<nat> = seq![1, 2];
    let a1 = a0.push(840);
    lemma_push(a0, 840);
    lemma_arc(840);
    let a2 = a1.push(10045);
    lemma_push(a1, 10045);
    lemma_arc(10045);
    let a3 = a2.push(2);
    lemma_push(a2, 2);
    lemma_small_arc(2);
    let a4 = a3.push(1);
    lemma_push(a3, 1);
    lemma_small_arc(1);
    assert(seq![1, 2, 840, 10045, 2, 1] =~= a4);
    assert(oid_bytes(a4) =~= seq![0x2au8, 0x86, 0x48, 0xce, 0x3d, 0x02, 0x01]);
}

proof fn lemma_ed25519()
    ensures
        oid_bytes(seq![1, 3, 101, 112]) == seq![0x2bu8, 0x65, 0x70],
{
    let a0: Seq<nat> = seq![1, 3];
    let a1 = a0.push(101);
    lemma_push(a0, 101);
    lemma_small_arc(101);
    let a2 = a1.push(112);
    lemma_push(a1, 112);
    lemma_small_arc(112);
    assert(seq![1, 3, 101, 112] =~= a2);
    assert(oid_bytes(a2) =~= seq![0x2bu8, 0x65, 0x70]);
}

proof fn lemma_certicom(n: nat)
    requires
        n < 128,
    ensures
        oid_bytes(seq![1, 3, 132, 0, n]) == seq![0x2bu8, 0x81, 0x04, 0x00, n as u8],
{
    let a0: Seq<nat> = seq![1, 3];
    let a1 = a0.push(132);
    lemma_push(a0, 132);
    lemma_arc(132);
    let a2 = a1.push(0);
    lemma_push(a1, 0);
    lemma_small_arc(0);
    let a3 = a2.push(n);
    lemma_push(a2, n);
    lemma_small_arc(n);
    assert(seq![1, 3, 132, 0, n] =~= a3);
    assert(oid_bytes(a3) =~= seq![0x2bu8, 0x81, 0x04, 0x00, n as u8]);
}

proof fn lemma_access()
    ensures
        oid_bytes(seq![1, 3, 6, 1, 5, 5, 7, 1, 1]) == seq![0x2bu8, 0x06, 0x01, 0x05, 0x05, 0x07, 0x01, 0x01],
{
    let a0: Seq<nat> = seq![1, 3];
    let a1 = a0.push(6);
    lemma_push(a0, 6);
    lemma_small_arc(6);
    let a2 = a1.push(1);
    lemma_push(a1, 1);
    lemma_small_arc(1);
    let a3 = a2.push(5);
    lemma_push(a2, 5);
    lemma_small_arc(5);
    let a4 = a3.push(5);
    lemma_push(a3, 5);
    lemma_small_arc(5);
    let a5 = a4.push(7);
    lemma_push(a4, 7);
    lemma_small_arc(7);
    let a6 = a5.push(1);
    lemma_push(a5, 1);
    lemma_small_arc(1);
    let a7 = a6.push(1);
    lemma_push(a6, 1);
    lemma_small_arc(1);
    assert(seq![1, 3, 6, 1, 5, 5, 7, 1, 1] =~= a7);
    assert(oid_bytes(a7) =~= seq![0x2bu8, 0x06, 0x01, 0x05, 0x05, 0x07, 0x01, 0x01]);
}

proof fn lemma_netscape()
    ensures
        oid_bytes(seq![2, 16, 840, 1, 113730, 1, 1]) == seq![0x60u8, 0x86, 0x48, 0x01, 0x86, 0xf8, 0x42, 0x01, 0x01],
{
    let a0: Seq<nat> = seq![2, 16];
    let a1 = a0.push(840);
    lemma_push(a0, 840);
    lemma_arc(840);
    let a2 = a1.push(1);
    lemma_push(a1, 1);
    lemma_small_arc(1);
    let a3 = a2.push(113730);
    lemma_push(a2, 113730);
    lemma_arc(113730);
    let a4 = a3.push(1);
    lemma_push(a3, 1);
    lemma_small_arc(1);
    let a5 = a4.push(1);
    lemma_push(a4, 1);
    lemma_small_arc(1);
    assert(seq![2, 16, 840, 1, 113730, 1, 1] =~= a5);
    assert(oid_bytes(a5) =~= seq![0x60u8, 0x86, 0x48, 0x01, 0x86, 0xf8, 0x42, 0x01, 0x01]);
}

/// The bytes of a known object identifier are the encoded form of its numbers.
pub proof fn law_identifiers_are_encoded(oid: KnownOid)
    ensures
        oid.bytes() == oid_bytes(dotted(oid)),
{
    let arcs = dotted(oid);
    let n = arcs.last();
    match oid {
        KnownOid::Rsa
        | KnownOid::RsassaPss
        | KnownOid::Sha256WithRsaEncryption
        | KnownOid::Sha384WithRsaEncryption
        | KnownOid::Sha512WithRsaEncryption => lemma_pkcs1(n),
        KnownOid::Sha256 | KnownOid::Sha384 | KnownOid::Sha512 => lemma_sha2(n),
        KnownOid::EcdsaWithSha256 | KnownOid::EcdsaWithSha384 | KnownOid::EcdsaWithSha512 =>
        lemma_ecdsa(n),
        KnownOid::Prime256v1 => lemma_prime(),
        KnownOid::EcPublicKey => lemma_ec_key(),
        KnownOid::Ed25519 => lemma_ed25519(),
        KnownOid::Secp384r1 | KnownOid::Secp521r1 => lemma_certicom(n),
        KnownOid::AuthorityInfoAccess => lemma_access(),
        KnownOid::NsCertType => lemma_netscape(),
        _ => lemma_extension(n),
    }
    assert(oid.bytes() =~= oid_bytes(arcs));
}

// Acceptance.

/// Whether `oid` is the object identifier with the numbers `arcs`.
pub open spec fn is_oid(oid: Seq<u8>, arcs: Seq<nat>) -> bool {
    oid == oid_bytes(arcs)
}

/// A moment in nanoseconds since 1970.
pub open spec fn nanos(seconds: int, behind: int) -> int {
    seconds * 1_000_000_000 + behind
}

/// Whether a certificate has version 3, and is used at a time that a certificate can give and that
/// is not before the one of its bounds nor after the other.
pub open spec fn sound_time(c: CertificateModel, time: i64) -> bool {
    let from = c.validity.not_before;
    let to = c.validity.not_after;
    &&& c.fields.version == 2
    &&& -377_705_116_800 <= time <= 253_402_300_799
    &&& nanos(from.seconds as int, from.nanos as int) <= nanos(time as int, 0) <= nanos(
        to.seconds as int,
        to.nanos as int,
    )
}

/// Whether an object identifier is that of a signature algorithm without parameters to check: RSA
/// or ECDSA with a SHA-2 hash of 256, 384 or 512 bits, or Ed25519.
pub open spec fn is_plain_signature(oid: Seq<u8>) -> bool {
    ||| is_oid(oid, seq![1, 2, 840, 113549, 1, 1, 11])
    ||| is_oid(oid, seq![1, 2, 840, 113549, 1, 1, 12])
    ||| is_oid(oid, seq![1, 2, 840, 113549, 1, 1, 13])
    ||| is_oid(oid, seq![1, 2, 840, 10045, 4, 3, 2])
    ||| is_oid(oid, seq![1, 2, 840, 10045, 4, 3, 3])
    ||| is_oid(oid, seq![1, 2, 840, 10045, 4, 3, 4])
    ||| is_oid(oid, seq![1, 3, 101, 112])
}

/// Whether an object identifier is that of RSASSA-PSS.
pub open spec fn is_pss(oid: Seq<u8>) -> bool {
    is_oid(oid, seq![1, 2, 840, 113549, 1, 1, 10])
}

/// Whether an object identifier is that of a SHA-2 hash of 256, 384 or 512 bits.
pub open spec fn is_sha2(oid: Seq<u8>) -> bool {
    ||| is_oid(oid, seq![2, 16, 840, 1, 101, 3, 4, 2, 1])
    ||| is_oid(oid, seq![2, 16, 840, 1, 101, 3, 4, 2, 2])
    ||| is_oid(oid, seq![2, 16, 840, 1, 101, 3, 4, 2, 3])
}

/// Whether the algorithm that a certificate is signed with is supported.
pub open spec fn sound_signature(c: CertificateModel) -> bool {
    ||| is_plain_signature(c.fields.signature_oid)
    ||| {
        &&& is_pss(c.fields.signature_oid)
        &&& c.parameters.signature matches Some(Some(_))
        &&& c.pss matches Some(pss)
        &&& pss.hash_dotted == pss.mask_dotted
        &&& is_sha2(pss.hash)
    }
}

/// Whether an object identifier is that of a key on an elliptic curve.
pub open spec fn is_ec_key_oid(oid: Seq<u8>) -> bool {
    is_oid(oid, seq![1, 2, 840, 10045, 2, 1])
}

/// Whether an object identifier is that of an RSA key.
pub open spec fn is_rsa_key_oid(oid: Seq<u8>) -> bool {
    is_oid(oid, seq![1, 2, 840, 113549, 1, 1, 1]) || is_pss(oid)
}

/// Whether an object identifier is that of the curve P-256, P-384 or P-521.
pub open spec fn is_supported_curve(oid: Seq<u8>) -> bool {
    ||| is_oid(oid, seq![1, 2, 840, 10045, 3, 1, 7])
    ||| is_oid(oid, seq![1, 3, 132, 0, 34])
    ||| is_oid(oid, seq![1, 3, 132, 0, 35])
}

/// Whether the key of a certificate is long enough: on a supported curve, or an RSA key of at
/// least 2048 bits; keys of other kinds are not looked at.
pub open spec fn sound_key(c: CertificateModel) -> bool {
    &&& is_ec_key_oid(c.fields.key_oid) ==> (c.parameters.key matches Some(Some(curve))
        && is_supported_curve(curve))
    &&& is_rsa_key_oid(c.fields.key_oid) ==> (c.key_numbers matches Some(numbers) && numbers.len()
        >= 2 && (numbers[0] matches Some(bits) && bits >= 2048))
}

/// Whether a certificate is not a self-signed one of an authority, and gives no unique ids.
pub open spec fn sound_names(c: CertificateModel) -> bool {
    &&& c.fields.is_ca ==> c.fields.issuer != c.fields.subject
    &&& !c.fields.has_issuer_uid
    &&& !c.fields.has_subject_uid
}

/// Whether the extended key usages of a certificate are not malformed and, where they are given,
/// do not hold any usage, are allowed, and either hold neither OCSP signing nor time stamping or
/// just one of these and nothing else.
pub open spec fn sound_usage(c: CertificateModel, usage_allowed: bool) -> bool {
    &&& c.usage matches Some(given)
    &&& given matches Some(u) ==> {
        &&& !u.any
        &&& usage_allowed
        &&& u.ocsp_signing ==> !u.time_stamping
        &&& u.ocsp_signing || u.time_stamping ==> !(u.client_auth || u.code_signing
            || u.email_protection || u.server_auth) && u.other.len() == 0
    }
}

/// The last numbers of the object identifiers 2.5.29.n of the extensions that are handled.
pub open spec fn is_handled_number(n: nat) -> bool {
    ||| n == 14 || n == 15 || n == 17 || n == 19 || n == 20 || n == 21 || n == 24
    ||| n == 30 || n == 31 || n == 32 || n == 33 || n == 35 || n == 36 || n == 37 || n == 54
}

/// Whether an extension of the given type is handled.
pub open spec fn is_handled(oid: Seq<u8>) -> bool {
    ||| exists|n: nat| is_handled_number(n) && #[trigger] is_oid(oid, extension(n))
    ||| is_oid(oid, seq![1, 3, 6, 1, 5, 5, 7, 1, 1])
    ||| is_oid(oid, seq![2, 16, 840, 1, 113730, 1, 1])
}

/// Whether a certificate has an extension of the type 2.5.29.n that was understood.
pub open spec fn has_parsed(c: CertificateModel, n: nat) -> bool {
    exists|i: int|
        0 <= i < c.extensions.len() && (#[trigger] c.extensions[i]).parsed && is_oid(
            c.extensions[i].oid,
            extension(n),
        )
}

/// Whether no extension lets a key that is not an authority's sign both data and certificates.
pub open spec fn sound_key_usages(c: CertificateModel) -> bool {
    forall|i: int|
        0 <= i < c.extensions.len() ==> ((#[trigger] c.extensions[i]).key_usage matches Some(u)
            ==> !(u.digital_signature && u.key_cert_sign) || c.fields.is_ca)
}

/// Whether the extensions of a certificate are as they should be: it names the key of its issuer,
/// and its own if it is an authority's; some key usage lets it sign; it gives extended key usages
/// unless it is an authority's; and each critical extension was understood and is handled.
pub open spec fn sound_extensions(c: CertificateModel) -> bool {
    &&& has_parsed(c, 35)
    &&& c.fields.is_ca ==> has_parsed(c, 14)
    &&& exists|i: int|
        0 <= i < c.extensions.len() && ((#[trigger] c.extensions[i]).key_usage matches Some(u) && (
        u.digital_signature || u.key_cert_sign || u.non_repudiation))
    &&& c.usage == Some(None::<UsageModel>) ==> c.fields.is_ca
    &&& forall|i: int|
        0 <= i < c.extensions.len() ==> (#[trigger] c.extensions[i]).critical
            ==> c.extensions[i].parsed && is_handled(c.extensions[i].oid)
}

/// Whether the nanoseconds of the bounds of a certificate are less than a second.
pub open spec fn within_seconds(v: Validity) -> bool {
    v.not_before.nanos < 1_000_000_000 && v.not_after.nanos < 1_000_000_000
}

proof fn lemma_signature_oids(oid: Seq<u8>)
    ensures
        one_of_oids(oid, signature_oids()) <==> is_plain_signature(oid) || is_pss(oid),
        KnownOid::RsassaPss.bytes() == oid <==> is_pss(oid),
        is_pss(oid) ==> !is_plain_signature(oid),
{
    let known = signature_oids();
    assert forall|k: KnownOid| #[trigger] k.bytes() == oid <==> is_oid(oid, dotted(k)) by {
        law_identifiers_are_encoded(k);
    }
    assert(known[0].bytes() == oid <==> is_oid(oid, pkcs1(11)));
    assert(known[1].bytes() == oid <==> is_oid(oid, pkcs1(12)));
    assert(known[2].bytes() == oid <==> is_oid(oid, pkcs1(13)));
    assert(known[3].bytes() == oid <==> is_oid(oid, seq![1, 2, 840, 10045, 4, 3, 2]));
    assert(known[4].bytes() == oid <==> is_oid(oid, seq![1, 2, 840, 10045, 4, 3, 3]));
    assert(known[5].bytes() == oid <==> is_oid(oid, seq![1, 2, 840, 10045, 4, 3, 4]));
    assert(known[6].bytes() == oid <==> is_oid(oid, pkcs1(10)));
    assert(known[7].bytes() == oid <==> is_oid(oid, seq![1, 3, 101, 112]));
    assert(known.len() == 8);
    if is_pss(oid) {
        let b = KnownOid::RsassaPss.bytes();
        assert(b.len() == 9 && b[8] == 10);
        assert(KnownOid::Sha256WithRsaEncryption.bytes()[8] == 11);
        assert(KnownOid::Sha384WithRsaEncryption.bytes()[8] == 12);
        assert(KnownOid::Sha512WithRsaEncryption.bytes()[8] == 13);
        assert(KnownOid::EcdsaWithSha256.bytes().len() == 8);
        assert(KnownOid::EcdsaWithSha384.bytes().len() == 8);
        assert(KnownOid::EcdsaWithSha512.bytes().len() == 8);
        assert(KnownOid::Ed25519.bytes().len() == 3);
    }
}

proof fn lemma_hash_and_curve_oids(oid: Seq<u8>)
    ensures
        one_of_oids(oid, hash_oids()) <==> is_sha2(oid),
        one_of_oids(oid, curve_oids()) <==> is_supported_curve(oid),
        KnownOid::EcPublicKey.bytes() == oid <==> is_ec_key_oid(oid),
        is_rsa_key(oid) <==> is_rsa_key_oid(oid),
        is_ec_key_oid(oid) ==> !is_rsa_key_oid(oid),
{
    assert forall|k: KnownOid| #[trigger] k.bytes() == oid <==> is_oid(oid, dotted(k)) by {
        law_identifiers_are_encoded(k);
    }
    let hashes = hash_oids();
    assert(hashes.len() == 3);
    assert(hashes[0].bytes() == oid <==> is_oid(oid, sha2(1)));
    assert(hashes[1].bytes() == oid <==> is_oid(oid, sha2(2)));
    assert(hashes[2].bytes() == oid <==> is_oid(oid, sha2(3)));
    let curves = curve_oids();
    assert(curves.len() == 3);
    assert(curves[0].bytes() == oid <==> is_oid(oid, seq![1, 2, 840, 10045, 3, 1, 7]));
    assert(curves[1].bytes() == oid <==> is_oid(oid, seq![1, 3, 132, 0, 34]));
    assert(curves[2].bytes() == oid <==> is_oid(oid, seq![1, 3, 132, 0, 35]));
    assert(KnownOid::EcPublicKey.bytes() == oid <==> is_oid(oid, dotted(KnownOid::EcPublicKey)));
    assert(KnownOid::Rsa.bytes() == oid <==> is_oid(oid, pkcs1(1)));
    assert(KnownOid::RsassaPss.bytes() == oid <==> is_oid(oid, pkcs1(10)));
    assert(KnownOid::EcPublicKey.bytes().len() == 7);
    assert(KnownOid::Rsa.bytes().len() == 9);
    assert(KnownOid::RsassaPss.bytes().len() == 9);
}

/// The known identifier of the extension 2.5.29.n, for the numbers that are handled.
spec fn known_extension(n: nat) -> KnownOid {
    if n == 14 {
        KnownOid::SubjectKeyIdentifier
    } else if n == 15 {
        KnownOid::KeyUsage
    } else if n == 17 {
        KnownOid::SubjectAltName
    } else if n == 19 {
        KnownOid::BasicConstraints
    } else if n == 20 {
        KnownOid::CrlNumber
    } else if n == 21 {
        KnownOid::ReasonCode
    } else if n == 24 {
        KnownOid::InvalidityDate
    } else if n == 30 {
        KnownOid::NameConstraints
    } else if n == 31 {
        KnownOid::CrlDistributionPoints
    } else if n == 32 {
        KnownOid::CertificatePolicies
    } else if n == 33 {
        KnownOid::PolicyMappings
    } else if n == 35 {
        KnownOid::AuthorityKeyIdentifier
    } else if n == 36 {
        KnownOid::PolicyConstraints
    } else if n == 37 {
        KnownOid::ExtendedKeyUsage
    } else {
        KnownOid::InhibitAnyPolicy
    }
}

proof fn lemma_handled(oid: Seq<u8>)
    ensures
        one_of_oids(oid, handled_extension_oids()) <==> is_handled(oid),
{
    let known = handled_extension_oids();
    assert forall|k: KnownOid| #[trigger] k.bytes() == oid <==> is_oid(oid, dotted(k)) by {
        law_identifiers_are_encoded(k);
    }
    assert(known.len() == 17);
    assert(known[0] == known_extension(35));
    assert(known[1] == known_extension(14));
    assert(known[2] == known_extension(15));
    assert(known[3] == known_extension(32));
    assert(known[4] == known_extension(33));
    assert(known[5] == known_extension(17));
    assert(known[6] == known_extension(19));
    assert(known[7] == known_extension(30));
    assert(known[8] == known_extension(36));
    assert(known[9] == known_extension(37));
    assert(known[10] == known_extension(31));
    assert(known[11] == known_extension(54));
    assert(known[14] == known_extension(20));
    assert(known[15] == known_extension(21));
    assert(known[16] == known_extension(24));
    assert forall|n: nat| is_handled_number(n) implies #[trigger] dotted(known_extension(n))
        == extension(n) by {}
    if one_of_oids(oid, known) {
        let i = choose|i: int| 0 <= i < known.len() && #[trigger] known[i].bytes() == oid;
        assert(is_oid(oid, dotted(known[i])));
        if i != 12 && i != 13 {
            let n: nat = if i == 0 {
                35
            } else if i == 1 {
                14
            } else if i == 2 {
                15
            } else if i == 3 {
                32
            } else if i == 4 {
                33
            } else if i == 5 {
                17
            } else if i == 6 {
                19
            } else if i == 7 {
                30
            } else if i == 8 {
                36
            } else if i == 9 {
                37
            } else if i == 10 {
                31
            } else if i == 11 {
                54
            } else if i == 14 {
                20
            } else if i == 15 {
                21
            } else {
                24
            };
            assert(is_handled_number(n) && is_oid(oid, extension(n)));
        }
    }
    if is_handled(oid) {
        if exists|n: nat| is_handled_number(n) && #[trigger] is_oid(oid, extension(n)) {
            let n = choose|n: nat| is_handled_number(n) && #[trigger] is_oid(oid, extension(n));
            assert(dotted(known_extension(n)) == extension(n));
            assert(known_extension(n).bytes() == oid);
            let k = known_extension(n);
            assert(exists|i: int| 0 <= i < known.len() && known[i] == k);
            let i = choose|i: int| 0 <= i < known.len() && known[i] == k;
            assert(known[i].bytes() == oid);
        } else if is_oid(oid, seq![1, 3, 6, 1, 5, 5, 7, 1, 1]) {
            assert(known[12].bytes() == oid);
        } else {
            assert(known[13].bytes() == oid);
        }
    }
}

/// What is wrong with the time at which a certificate is used, if anything is.
proof fn lemma_time(c: CertificateModel, time: i64)
    requires
        within_seconds(c.validity),
    ensures
        time_rejection(c, time) is None <==> sound_time(c, time),
{
}

proof fn lemma_signature(c: CertificateModel)
    ensures
        signature_rejection(c) is None <==> sound_signature(c),
{
    lemma_signature_oids(c.fields.signature_oid);
    if let Some(pss) = c.pss {
        lemma_hash_and_curve_oids(pss.hash);
    }
}

proof fn lemma_key(c: CertificateModel)
    ensures
        key_rejection(c) is None <==> sound_key(c),
{
    lemma_hash_and_curve_oids(c.fields.key_oid);
    if let Some(Some(curve)) = c.parameters.key {
        lemma_hash_and_curve_oids(curve);
    }
}

proof fn lemma_has(c: CertificateModel, oid: KnownOid, n: nat)
    requires
        dotted(oid) == extension(n),
    ensures
        has_extension(c, oid) <==> has_parsed(c, n),
{
    law_identifiers_are_encoded(oid);
    if has_extension(c, oid) {
        let i = choose|i: int|
            0 <= i < c.extensions.len() && (#[trigger] c.extensions[i]).parsed
                && c.extensions[i].oid == oid.bytes();
        assert(c.extensions[i].parsed && is_oid(c.extensions[i].oid, extension(n)));
    }
    if has_parsed(c, n) {
        let i = choose|i: int|
            0 <= i < c.extensions.len() && (#[trigger] c.extensions[i]).parsed && is_oid(
                c.extensions[i].oid,
                extension(n),
            );
        assert(c.extensions[i].oid == oid.bytes());
    }
}

proof fn lemma_extensions(c: CertificateModel)
    ensures
        extension_rejection(c) is None <==> sound_key_usages(c) && sound_extensions(c),
        !sound_key_usages(c) <==> exists|i: int|
            0 <= i < c.extensions.len() && oversteps(c, #[trigger] c.extensions[i]),
{
    lemma_has(c, KnownOid::AuthorityKeyIdentifier, 35);
    lemma_has(c, KnownOid::SubjectKeyIdentifier, 14);
    assert forall|i: int| 0 <= i < c.extensions.len() implies (unhandled(
        #[trigger] c.extensions[i],
    ) <==> c.extensions[i].critical && !(c.extensions[i].parsed && is_handled(
        c.extensions[i].oid,
    ))) by {
        lemma_handled(c.extensions[i].oid);
    }
    assert(may_sign(c) <==> exists|i: int|
        0 <= i < c.extensions.len() && ((#[trigger] c.extensions[i]).key_usage matches Some(u) && (
        u.digital_signature || u.key_cert_sign || u.non_repudiation)));
    if !sound_key_usages(c) {
        let i = choose|i: int|
            0 <= i < c.extensions.len() && !((#[trigger] c.extensions[i]).key_usage matches Some(u)
                ==> !(u.digital_signature && u.key_cert_sign) || c.fields.is_ca);
        assert(oversteps(c, c.extensions[i]));
    }
    if exists|i: int| 0 <= i < c.extensions.len() && oversteps(c, #[trigger] c.extensions[i]) {
        let i = choose|i: int|
            0 <= i < c.extensions.len() && oversteps(c, #[trigger] c.extensions[i]);
        assert(!(c.extensions[i].key_usage matches Some(u) ==> !(u.digital_signature
            && u.key_cert_sign) || c.fields.is_ca));
    }
    if sound_key_usages(c) && sound_extensions(c) {
        assert forall|i: int| 0 <= i < c.extensions.len() implies !unhandled(
            #[trigger] c.extensions[i],
        ) by {}
    }
    if extension_rejection(c) is None {
        assert forall|i: int|
            0 <= i < c.extensions.len() && (#[trigger] c.extensions[i]).critical implies
            c.extensions[i].parsed && is_handled(c.extensions[i].oid) by {
            assert(!unhandled(c.extensions[i]));
        }
    }
}

/// A certificate is accepted just where it is sound in each respect: version and time, the
/// algorithm that it is signed with, its key, whom it names, its extended key usages and its
/// extensions.
pub proof fn law_sound_certificates_are_accepted(
    c: CertificateModel,
    time: i64,
    usage_allowed: bool,
)
    requires
        within_seconds(c.validity),
    ensures
        rejection(c, time, usage_allowed) is None <==> {
            &&& sound_time(c, time)
            &&& sound_signature(c)
            &&& sound_key(c)
            &&& sound_names(c)
            &&& sound_usage(c, usage_allowed)
            &&& sound_key_usages(c)
            &&& sound_extensions(c)
        },
{
    lemma_time(c, time);
    lemma_signature(c);
    lemma_key(c);
    lemma_extensions(c);
}

// Rejection.

/// Whether a certificate is rejected as invalid, and the log says why.
pub open spec fn rejects_with(found: Option<Rejection>, description: &'static str) -> bool {
    &&& found matches Some(r)
    &&& r.error == Error::CoseInvalidCert
    &&& r.logged == Some((description, ValidationStatus::SigningCredentialInvalid))
}

/// Whether a certificate is rejected as invalid, and the log does not tell of it.
pub open spec fn rejects_silently(found: Option<Rejection>) -> bool {
    found matches Some(r) && r.error == Error::CoseInvalidCert && r.logged is None
}

/// A certificate of another version, or that is used at another time, is rejected.
pub proof fn law_untimely_certificates(c: CertificateModel, time: i64, usage_allowed: bool)
    requires
        within_seconds(c.validity),
    ensures
        ({
            let found = rejection(c, time, usage_allowed);
            let in_range = -377_705_116_800 <= time <= 253_402_300_799;
            &&& c.fields.version != 2 ==> rejects_with(found, "certificate version incorrect")
            &&& c.fields.version == 2 && !in_range ==> rejects_silently(found)
            &&& c.fields.version == 2 && in_range && !sound_time(c, time) ==> {
                &&& found matches Some(r)
                &&& r.error == Error::CoseCertExpiration
                &&& r.logged == Some(
                    ("certificate expired", ValidationStatus::SigningCredentialExpired),
                )
            }
            &&& sound_time(c, time) ==> (found matches Some(r) ==> r.error
                == Error::CoseInvalidCert)
        }),
{
    lemma_time(c, time);
}

/// A certificate that is signed with another algorithm is rejected.
pub proof fn law_unsupported_signatures(c: CertificateModel, time: i64, usage_allowed: bool)
    requires
        within_seconds(c.validity),
        sound_time(c, time),
        !sound_signature(c),
    ensures
        ({
            let found = rejection(c, time, usage_allowed);
            let pss = is_pss(c.fields.signature_oid);
            &&& !pss ==> rejects_with(found, "certificate algorithm not supported")
            &&& pss && c.parameters.signature is None ==> rejects_with(
                found,
                "certificate missing algorithm parameters",
            )
            &&& pss && (c.parameters.signature == Some(None::<Seq<u8>>)
                || c.parameters.signature is Some && c.pss is None) ==> rejects_silently(found)
            &&& pss && (c.parameters.signature matches Some(Some(_))) ==> (c.pss matches Some(h) ==> {
                &&& h.hash_dotted != h.mask_dotted ==> rejects_with(
                    found,
                    "certificate algorithm error",
                )
                &&& h.hash_dotted == h.mask_dotted ==> rejects_with(
                    found,
                    "certificate hash algorithm not supported",
                )
            })
        }),
{
    lemma_time(c, time);
    lemma_signature(c);
    lemma_signature_oids(c.fields.signature_oid);
    if let Some(h) = c.pss {
        lemma_hash_and_curve_oids(h.hash);
    }
}

/// A certificate whose key is too short, or on another curve, is rejected.
pub proof fn law_unsupported_keys(c: CertificateModel, time: i64, usage_allowed: bool)
    requires
        within_seconds(c.validity),
        sound_time(c, time),
        sound_signature(c),
        !sound_key(c),
    ensures
        ({
            let found = rejection(c, time, usage_allowed);
            let named = c.parameters.key matches Some(Some(_));
            let long = c.key_numbers matches Some(numbers) && numbers.len() >= 2 && numbers[0]
                is Some;
            &&& is_ec_key_oid(c.fields.key_oid) ==> if named {
                rejects_with(found, "certificate unsupported EC curve")
            } else {
                rejects_silently(found)
            }
            &&& is_rsa_key_oid(c.fields.key_oid) ==> if long {
                rejects_with(found, "certificate key length too short")
            } else {
                rejects_silently(found)
            }
        }),
{
    lemma_time(c, time);
    lemma_signature(c);
    lemma_key(c);
    lemma_hash_and_curve_oids(c.fields.key_oid);
    if let Some(Some(curve)) = c.parameters.key {
        lemma_hash_and_curve_oids(curve);
    }
}

/// A self-signed certificate of an authority, or one with unique ids, is rejected.
pub proof fn law_unsound_names(c: CertificateModel, time: i64, usage_allowed: bool)
    requires
        within_seconds(c.validity),
        sound_time(c, time),
        sound_signature(c),
        sound_key(c),
        !sound_names(c),
    ensures
        ({
            let found = rejection(c, time, usage_allowed);
            if c.fields.is_ca && c.fields.issuer == c.fields.subject {
                rejects_with(
                    found,
                    "certificate issuer and subject cannot be the same {self-signed disallowed}",
                )
            } else {
                rejects_with(found, "certificate issuer/subject unique ids are not allowed")
            }
        }),
{
    lemma_time(c, time);
    lemma_signature(c);
    lemma_key(c);
}

/// A certificate whose extended key usages are malformed, are not allowed or may not stand
/// together is rejected.
pub proof fn law_unsound_usages(c: CertificateModel, time: i64, usage_allowed: bool)
    requires
        within_seconds(c.validity),
        sound_time(c, time),
        sound_signature(c),
        sound_key(c),
        sound_names(c),
        !sound_usage(c, usage_allowed),
    ensures
        ({
            let found = rejection(c, time, usage_allowed);
            match c.usage {
                Some(Some(u)) => if u.any {
                    rejects_with(found, "certificate 'any' EKU not allowed")
                } else if !usage_allowed {
                    rejects_with(found, "certificate missing required EKU")
                } else {
                    rejects_with(found, "certificate invalid set of EKUs")
                },
                _ => rejects_silently(found),
            }
        }),
{
    lemma_time(c, time);
    lemma_signature(c);
    lemma_key(c);
}

/// A certificate whose extensions are not as they should be is rejected.
pub proof fn law_unsound_extensions(c: CertificateModel, time: i64, usage_allowed: bool)
    requires
        within_seconds(c.validity),
        sound_time(c, time),
        sound_signature(c),
        sound_key(c),
        sound_names(c),
        sound_usage(c, usage_allowed),
        !(sound_key_usages(c) && sound_extensions(c)),
    ensures
        ({
            let found = rejection(c, time, usage_allowed);
            if sound_key_usages(c) {
                rejects_with(found, "certificate params incorrect")
            } else {
                rejects_with(found, "certificate missing digitalSignature EKU")
            }
        }),
{
    lemma_time(c, time);
    lemma_signature(c);
    lemma_key(c);
    lemma_extensions(c);
}

// Encoded certificates.

/// The hash algorithms of an RSASSA-PSS signature are those in its first two fields, which are
/// tagged 0 and 1 in the context of their sequence.
pub proof fn law_pss_hashes(content: Seq<u8>)
    ensures
        pss_of(content) matches Some(pss) ==> {
            &&& header_of(content) matches Some((class, tag, rest))
            &&& class == 2 && tag == 0
            &&& algorithm_of(rest) matches Some(hash)
            &&& header_of(hash.rest) matches Some((class1, tag1, rest1))
            &&& class1 == 2 && tag1 == 1
            &&& algorithm_of(rest1) matches Some(mask)
            &&& mask.parameters matches Some(Some(parameters))
            &&& dotted_oid_of(parameters) == Some(pss.mask_dotted)
            &&& pss.hash == hash.oid
            &&& pss.hash_dotted == hash.dotted
        },
{
}

/// Where the first two fields are tagged so and hold algorithms, the second with a hash, the hash
/// algorithms are found.
pub proof fn law_pss_hashes_are_found(
    content: Seq<u8>,
    rest: Seq<u8>,
    hash: AlgorithmModel,
    rest1: Seq<u8>,
    mask: AlgorithmModel,
    parameters: Seq<u8>,
    mask_dotted: Seq<char>,
)
    requires
        header_of(content) == Some((2u8, 0u32, rest)),
        algorithm_of(rest) == Some(hash),
        header_of(hash.rest) == Some((2u8, 1u32, rest1)),
        algorithm_of(rest1) == Some(mask),
        mask.parameters == Some(Some(parameters)),
        dotted_oid_of(parameters) == Some(mask_dotted),
    ensures
        pss_of(content) == Some(PssModel { hash: hash.oid, hash_dotted: hash.dotted, mask_dotted }),
{
}

/// A certificate is read where all its parts are, and has each of them; the numbers of its key are
/// looked at for RSA keys alone.
pub proof fn law_certificates_have_their_parts(der: Seq<u8>)
    ensures
        certificate_of(der) is Some <==> fields_of(der) is Some && validity_of(der) is Some
            && parameters_of(der) is Some && usage_of(der) is Some && extensions_of(der) is Some,
        certificate_of(der) matches Some(c) ==> {
            &&& fields_of(der) == Some(c.fields)
            &&& validity_of(der) == Some(c.validity)
            &&& parameters_of(der) == Some(c.parameters)
            &&& usage_of(der) == Some(c.usage)
            &&& extensions_of(der) == Some(c.extensions)
            &&& c.key_numbers == (if is_rsa_key_oid(c.fields.key_oid) {
                integer_bits_of(c.fields.key_data)
            } else {
                None
            })
            &&& c.parameters.signature matches Some(Some(content)) ==> c.pss == pss_of(content)
        },
{
    if let Some(c) = certificate_of(der) {
        lemma_hash_and_curve_oids(c.fields.key_oid);
    }
}

/// What a certificate holds is in its fields.
pub proof fn law_models_of_certificates(c: Certificate, pss: PssHashes)
    ensures
        pss@.hash == pss.hash@,
        pss@.hash_dotted == pss.hash_dotted@,
        pss@.mask_dotted == pss.mask_dotted@,
        c@.fields == c.fields@,
        c@.validity == c.validity,
        c@.parameters == c.parameters@,
        c.pss is None <==> c@.pss is None,
        c.pss matches Some(held) ==> c@.pss == Some(held@),
        c.key_numbers is None <==> c@.key_numbers is None,
        c.key_numbers matches Some(numbers) ==> c@.key_numbers == Some(numbers@),
        c.usage is None <==> c@.usage is None,
        c.usage == Some(None::<ExtendedKeyUsage>) <==> c@.usage == Some(None::<UsageModel>),
        c.usage matches Some(Some(usage)) ==> c@.usage == Some(Some(usage@)),
        c@.extensions.len() == c.extensions@.len(),
        forall|i: int|
            0 <= i < c.extensions@.len() ==> c@.extensions[i] == (#[trigger] c.extensions@[i])@,
{
}

/// A certificate that cannot be read is rejected; another is checked at the time of signing, where
/// that is known, and then it does not matter what time it is now.
pub proof fn law_certificates_are_checked_at_signing(
    der: Seq<u8>,
    signed: i64,
    now: i64,
    usage_allowed: bool,
)
    ensures
        certificate_of(der) is None ==> rejects_with(
            cert_rejection(der, None, now, usage_allowed),
            "certificate could not be parsed",
        ),
        certificate_of(der) matches Some(c) ==> cert_rejection(der, None, now, usage_allowed)
            == rejection(c, now, usage_allowed),
        cert_rejection(der, Some(signed), now, usage_allowed) == cert_rejection(
            der,
            None,
            signed,
            usage_allowed,
        ),
{
}

/// An accepted certificate gives no error and leaves the log as it was; a rejected one gives the
/// error of the rejection and leaves at most one item, which tells of that error.
pub proof fn law_rejections_are_reported(log: StatusModel, found: Option<Rejection>)
    ensures
        found is None ==> verdict(found) == Ok::<(), Error>(()) && logged(log, found) == log,
        found matches Some(r) ==> {
            let after = logged(log, found);
            let item = after.logged_items.last();
            &&& verdict(found) == Err::<(), Error>(r.error)
            &&& r.logged is None ==> after == log
            &&& r.logged matches Some((description, status)) ==> {
                &&& after.stops_on_error == log.stops_on_error
                &&& after.logged_items == log.logged_items.push(item)
                &&& item.label == "Cose_Sign1"
                &&& item.description == description
                &&& item.function == "check_cert_alg"
                &&& item.validation_status == Some(status)
                &&& item.err_val == Some(r.error)
            }
        },
{
}

} // verus!
