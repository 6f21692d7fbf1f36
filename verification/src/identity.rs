//! Identity assertions, made on behalf of the holder of a credential.

use vstd::prelude::*;

verus! {

/// An implementation of `CredentialHolder` is able to generate a signature over a payload on
/// behalf of a credential holder.
pub trait CredentialHolder {
    /// What is signed.
    type Payload;

    /// Why there is no signature.
    type Error;

    /// The name of the kind of signature.
    spec fn named(&self) -> Seq<char>;

    /// The room that is kept for a signature, in bytes.
    spec fn reserved(&self) -> usize;

    /// Returns the designated `sig_type` value for this kind of credential.
    fn sig_type(&self) -> (r: &'static str)
        ensures
            r@ == self.named(),
    ;

    /// Returns the maximum expected size in bytes of the signature that `sign` returns.
    fn reserve_size(&self) -> (r: usize)
        ensures
            r == self.reserved(),
    ;

    /// Signs the payload on behalf of the credential holder.
    ///
    /// If successful, returns the exact binary content of the signature, which is no larger than
    /// the size stated by `reserve_size`.
    fn sign(&self, signer_payload: &Self::Payload) -> (r: Result<Vec<u8>, Self::Error>)
        ensures
            r matches Ok(signature) ==> signature@.len() <= self.reserved(),
    ;
}

} // verus!
