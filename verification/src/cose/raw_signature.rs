//! Signatures on their own, outside of any structure that holds them.

use vstd::prelude::*;

use crate::cose::sign1::SigningAlg;

verus! {

/// A validator of Ed25519 signatures.
#[derive(Clone, Copy, Debug, PartialEq, Eq, Structural)]
pub struct Ed25519Validator {}

/// Return a validator for the given signing algorithm. Ed25519 is the one that has any.
pub fn validator_for_signing_alg(alg: SigningAlg) -> (r: Option<Ed25519Validator>)
    ensures
        r is Some <==> alg == SigningAlg::Ed25519,
{
    match alg {
        SigningAlg::Ed25519 => Some(Ed25519Validator {  }),
        _ => None,
    }
}

} // verus!
