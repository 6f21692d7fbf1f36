//! The error type shared by the asset handlers.

use vstd::prelude::*;

use crate::font::error::FontError;

verus! {

/// Why an operation on an asset failed.
#[derive(Clone, Copy, Debug, PartialEq, Eq)]
pub enum Error {
    /// The asset is malformed, or a value in it does not fit where it must go.
    InvalidAsset(&'static str),
    /// The asset holds no manifest store.
    JumbfNotFound,
    /// The asset holds a value of a type that is not handled.
    UnsupportedType,
    /// A part of the asset that must be there is missing.
    NotFound,
    /// The data ended before everything asked for was read.
    IoError,
    /// An argument, or a range derived from one, is out of bounds.
    BadParam(&'static str),
    /// A font is malformed, or could not be handled.
    FontError(FontError),
    /// A font could not be loaded.
    FontLoadError,
    /// A font could not be saved.
    FontSaveError,
    /// The data does not start as a font does.
    UnsupportedFontError,
    /// A part of the asset could not be deserialized.
    DeserializationError,
    /// What is asked for is not available.
    NotImplemented(&'static str),
    /// The signature is not a COSE_Sign1 structure.
    CoseSignature,
    /// The signature could not be deserialized.
    InvalidCoseSignature,
    /// The signing algorithm is not supported.
    CoseSignatureAlgorithmNotSupported,
    /// The signature holds no signing certificate.
    CoseMissingKey,
    /// The signature holds no chain of certificates.
    CoseX5ChainMissing,
    /// The signature could not be verified.
    CoseVerifier,
    /// The signing certificate is not acceptable.
    CoseInvalidCert,
    /// The signing certificate was not valid when the signature was made.
    CoseCertExpiration,
    /// The signing certificate is not trusted.
    CoseCertUntrusted,
    /// The time stamp could not be parsed.
    CoseInvalidTimeStamp,
    /// The time stamp is outside of the validity of its certificate.
    CoseTimeStampValidity,
    /// The time stamp is for other data.
    CoseTimeStampMismatch,
    /// The time stamp is malformed, or for other data.
    TimeStampInvalidData,
    /// The time stamp could not be used.
    TimeStampError,
    /// An ECDSA signature is not in the form of two numbers of fixed length.
    InvalidEcdsaSignature,
    /// The signature does not match the data and the key.
    SignatureMismatch,
}

} // verus!
