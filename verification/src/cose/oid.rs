//! The object identifiers that the certificate checks know.

use vstd::prelude::*;

use crate::text::bytes_eq;

verus! {

/// An object identifier.
#[derive(Clone, Copy, Debug, PartialEq, Eq, Structural)]
pub enum KnownOid {
    // keys
    Rsa,
    EcPublicKey,
    // signatures
    RsassaPss,
    Sha256WithRsaEncryption,
    Sha384WithRsaEncryption,
    Sha512WithRsaEncryption,
    EcdsaWithSha256,
    EcdsaWithSha384,
    EcdsaWithSha512,
    Ed25519,
    // hashes
    Sha256,
    Sha384,
    Sha512,
    // curves
    Prime256v1,
    Secp384r1,
    Secp521r1,
    // extensions
    SubjectKeyIdentifier,
    KeyUsage,
    SubjectAltName,
    BasicConstraints,
    CrlNumber,
    ReasonCode,
    InvalidityDate,
    NameConstraints,
    CrlDistributionPoints,
    CertificatePolicies,
    PolicyMappings,
    AuthorityKeyIdentifier,
    PolicyConstraints,
    ExtendedKeyUsage,
    InhibitAnyPolicy,
    AuthorityInfoAccess,
    NsCertType,
}

impl KnownOid {
    /// The encoded bytes of the identifier.
    pub open spec fn bytes(self) -> Seq<u8> {
        match self {
            KnownOid::Rsa => seq![0x2a, 0x86, 0x48, 0x86, 0xf7, 0x0d, 0x01, 0x01, 0x01],
            KnownOid::EcPublicKey => seq![0x2a, 0x86, 0x48, 0xce, 0x3d, 0x02, 0x01],
            KnownOid::RsassaPss => seq![0x2a, 0x86, 0x48, 0x86, 0xf7, 0x0d, 0x01, 0x01, 0x0a],
            KnownOid::Sha256WithRsaEncryption =>
            seq![0x2a, 0x86, 0x48, 0x86, 0xf7, 0x0d, 0x01, 0x01, 0x0b],
            KnownOid::Sha384WithRsaEncryption =>
            seq![0x2a, 0x86, 0x48, 0x86, 0xf7, 0x0d, 0x01, 0x01, 0x0c],
            KnownOid::Sha512WithRsaEncryption =>
            seq![0x2a, 0x86, 0x48, 0x86, 0xf7, 0x0d, 0x01, 0x01, 0x0d],
            KnownOid::EcdsaWithSha256 => seq![0x2a, 0x86, 0x48, 0xce, 0x3d, 0x04, 0x03, 0x02],
            KnownOid::EcdsaWithSha384 => seq![0x2a, 0x86, 0x48, 0xce, 0x3d, 0x04, 0x03, 0x03],
            KnownOid::EcdsaWithSha512 => seq![0x2a, 0x86, 0x48, 0xce, 0x3d, 0x04, 0x03, 0x04],
            KnownOid::Ed25519 => seq![0x2b, 0x65, 0x70],
            KnownOid::Sha256 => seq![0x60, 0x86, 0x48, 0x01, 0x65, 0x03, 0x04, 0x02, 0x01],
            KnownOid::Sha384 => seq![0x60, 0x86, 0x48, 0x01, 0x65, 0x03, 0x04, 0x02, 0x02],
            KnownOid::Sha512 => seq![0x60, 0x86, 0x48, 0x01, 0x65, 0x03, 0x04, 0x02, 0x03],
            KnownOid::Prime256v1 => seq![0x2a, 0x86, 0x48, 0xce, 0x3d, 0x03, 0x01, 0x07],
            KnownOid::Secp384r1 => seq![0x2b, 0x81, 0x04, 0x00, 0x22],
            KnownOid::Secp521r1 => seq![0x2b, 0x81, 0x04, 0x00, 0x23],
            KnownOid::SubjectKeyIdentifier => seq![0x55, 0x1d, 0x0e],
            KnownOid::KeyUsage => seq![0x55, 0x1d, 0x0f],
            KnownOid::SubjectAltName => seq![0x55, 0x1d, 0x11],
            KnownOid::BasicConstraints => seq![0x55, 0x1d, 0x13],
            KnownOid::CrlNumber => seq![0x55, 0x1d, 0x14],
            KnownOid::ReasonCode => seq![0x55, 0x1d, 0x15],
            KnownOid::InvalidityDate => seq![0x55, 0x1d, 0x18],
            KnownOid::NameConstraints => seq![0x55, 0x1d, 0x1e],
            KnownOid::CrlDistributionPoints => seq![0x55, 0x1d, 0x1f],
            KnownOid::CertificatePolicies => seq![0x55, 0x1d, 0x20],
            KnownOid::PolicyMappings => seq![0x55, 0x1d, 0x21],
            KnownOid::AuthorityKeyIdentifier => seq![0x55, 0x1d, 0x23],
            KnownOid::PolicyConstraints => seq![0x55, 0x1d, 0x24],
            KnownOid::ExtendedKeyUsage => seq![0x55, 0x1d, 0x25],
            KnownOid::InhibitAnyPolicy => seq![0x55, 0x1d, 0x36],
            KnownOid::AuthorityInfoAccess => seq![0x2b, 0x06, 0x01, 0x05, 0x05, 0x07, 0x01, 0x01],
            KnownOid::NsCertType => seq![0x60, 0x86, 0x48, 0x01, 0x86, 0xf8, 0x42, 0x01, 0x01],
        }
    }

    /// The encoded bytes of the identifier.
    pub fn to_bytes(self) -> (r: Vec<u8>)
        ensures
            r@ == self.bytes(),
    {
        let bytes: Vec<u8> = match self {
            KnownOid::Rsa => vec![0x2a, 0x86, 0x48, 0x86, 0xf7, 0x0d, 0x01, 0x01, 0x01],
            KnownOid::EcPublicKey => vec![0x2a, 0x86, 0x48, 0xce, 0x3d, 0x02, 0x01],
            KnownOid::RsassaPss => vec![0x2a, 0x86, 0x48, 0x86, 0xf7, 0x0d, 0x01, 0x01, 0x0a],
            KnownOid::Sha256WithRsaEncryption =>
            vec![0x2a, 0x86, 0x48, 0x86, 0xf7, 0x0d, 0x01, 0x01, 0x0b],
            KnownOid::Sha384WithRsaEncryption =>
            vec![0x2a, 0x86, 0x48, 0x86, 0xf7, 0x0d, 0x01, 0x01, 0x0c],
            KnownOid::Sha512WithRsaEncryption =>
            vec![0x2a, 0x86, 0x48, 0x86, 0xf7, 0x0d, 0x01, 0x01, 0x0d],
            KnownOid::EcdsaWithSha256 => vec![0x2a, 0x86, 0x48, 0xce, 0x3d, 0x04, 0x03, 0x02],
            KnownOid::EcdsaWithSha384 => vec![0x2a, 0x86, 0x48, 0xce, 0x3d, 0x04, 0x03, 0x03],
            KnownOid::EcdsaWithSha512 => vec![0x2a, 0x86, 0x48, 0xce, 0x3d, 0x04, 0x03, 0x04],
            KnownOid::Ed25519 => vec![0x2b, 0x65, 0x70],
            KnownOid::Sha256 => vec![0x60, 0x86, 0x48, 0x01, 0x65, 0x03, 0x04, 0x02, 0x01],
            KnownOid::Sha384 => vec![0x60, 0x86, 0x48, 0x01, 0x65, 0x03, 0x04, 0x02, 0x02],
            KnownOid::Sha512 => vec![0x60, 0x86, 0x48, 0x01, 0x65, 0x03, 0x04, 0x02, 0x03],
            KnownOid::Prime256v1 => vec![0x2a, 0x86, 0x48, 0xce, 0x3d, 0x03, 0x01, 0x07],
            KnownOid::Secp384r1 => vec![0x2b, 0x81, 0x04, 0x00, 0x22],
            KnownOid::Secp521r1 => vec![0x2b, 0x81, 0x04, 0x00, 0x23],
            KnownOid::SubjectKeyIdentifier => vec![0x55, 0x1d, 0x0e],
            KnownOid::KeyUsage => vec![0x55, 0x1d, 0x0f],
            KnownOid::SubjectAltName => vec![0x55, 0x1d, 0x11],
            KnownOid::BasicConstraints => vec![0x55, 0x1d, 0x13],
            KnownOid::CrlNumber => vec![0x55, 0x1d, 0x14],
            KnownOid::ReasonCode => vec![0x55, 0x1d, 0x15],
            KnownOid::InvalidityDate => vec![0x55, 0x1d, 0x18],
            KnownOid::NameConstraints => vec![0x55, 0x1d, 0x1e],
            KnownOid::CrlDistributionPoints => vec![0x55, 0x1d, 0x1f],
            KnownOid::CertificatePolicies => vec![0x55, 0x1d, 0x20],
            KnownOid::PolicyMappings => vec![0x55, 0x1d, 0x21],
            KnownOid::AuthorityKeyIdentifier => vec![0x55, 0x1d, 0x23],
            KnownOid::PolicyConstraints => vec![0x55, 0x1d, 0x24],
            KnownOid::ExtendedKeyUsage => vec![0x55, 0x1d, 0x25],
            KnownOid::InhibitAnyPolicy => vec![0x55, 0x1d, 0x36],
            KnownOid::AuthorityInfoAccess => vec![0x2b, 0x06, 0x01, 0x05, 0x05, 0x07, 0x01, 0x01],
            KnownOid::NsCertType => vec![0x60, 0x86, 0x48, 0x01, 0x86, 0xf8, 0x42, 0x01, 0x01],
        };
        proof {
            assert(bytes@ =~= self.bytes());
        }
        bytes
    }

    /// Whether `oid` is this identifier.
    pub fn is(self, oid: &[u8]) -> (r: bool)
        ensures
            r == (oid@ == self.bytes()),
    {
        bytes_eq(oid, self.to_bytes().as_slice())
    }
}

/// Whether `oid` is one of `known`.
pub open spec fn one_of_oids(oid: Seq<u8>, known: Seq<KnownOid>) -> bool {
    exists|i: int| 0 <= i < known.len() && #[trigger] known[i].bytes() == oid
}

/// Whether `oid` is one of `known`.
pub fn is_one_of_oids(oid: &[u8], known: &Vec<KnownOid>) -> (r: bool)
    ensures
        r == one_of_oids(oid@, known@),
{
    let mut i: usize = 0;
    while i < known.len()
        invariant
            i <= known@.len(),
            forall|k: int| 0 <= k < i ==> #[trigger] known@[k].bytes() != oid@,
        decreases known@.len() - i,
    {
        if known[i].is(oid) {
            proof {
                assert(known@[i as int].bytes() == oid@);
            }
            return true;
        }
        i = i + 1;
    }
    false
}

} // verus!
