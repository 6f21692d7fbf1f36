//! COSE signatures and the certificates that they are made with.

pub mod certificate;
pub mod certificate_info;
pub mod certificate_laws;
pub mod header_laws;
pub mod laws;
pub mod ocsp;
pub mod oid;
pub mod raw_signature;
pub mod sign1;
pub mod status;
pub mod verify;
pub mod verify_laws;
pub mod x509;
