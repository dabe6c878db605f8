//! Trusted boundary to the BLS threshold-signature library.
//!
//! The routing logic holds keys and signatures as plain bytes; these wrappers
//! carry them into the outside library and back.

use vstd::prelude::*;

verus! {

#[verifier::external_type_specification]
#[verifier::external_body]
pub struct ExPublicKeySet(threshold_crypto::PublicKeySet);

#[verifier::external_type_specification]
#[verifier::external_body]
pub struct ExSecretKeyShare(threshold_crypto::SecretKeyShare);

/// Whether the BLS signature encoded by `sig` is valid under the public key
/// encoded by `pk` for the message `msg`.  The outside library computes this
/// from the three byte strings alone.
pub uninterp spec fn bls_verifies(pk: Seq<u8>, sig: Seq<u8>, msg: Seq<u8>) -> bool;

/// Relies on `threshold_crypto::PublicKey::verify`, with
/// `PublicKey::from_bytes` and `Signature::from_bytes`: the answer depends
/// only on the key, signature and message bytes; undecodable bytes never
/// verify.
#[verifier::external_body]
pub fn bls_verify(pk: &Vec<u8>, sig: &Vec<u8>, msg: &Vec<u8>) -> (r: bool)
    ensures
        r == bls_verifies(pk@, sig@, msg@),
{
    let k: [u8; 48] = match pk.as_slice().try_into() {
        Ok(a) => a,
        Err(_) => return false,
    };
    let s: [u8; 96] = match sig.as_slice().try_into() {
        Ok(a) => a,
        Err(_) => return false,
    };
    match (threshold_crypto::PublicKey::from_bytes(k), threshold_crypto::Signature::from_bytes(s)) {
        (Ok(key), Ok(sg)) => key.verify(&sg, msg.as_slice()),
        _ => false,
    }
}

/// Relies on `threshold_crypto::SecretKeyShare::sign` and
/// `Signature::to_bytes`: a signature share over the message, encoded as its
/// 96 bytes.
#[verifier::external_body]
pub fn bls_sign_share(sk: &threshold_crypto::SecretKeyShare, msg: &Vec<u8>) -> (r: Vec<u8>)
    ensures
        r@.len() == 96,
{
    sk.sign(msg.as_slice()).to_bytes().to_vec()
}

/// Relies on `threshold_crypto::PublicKeySet::public_key` and
/// `PublicKey::to_bytes`: the set's master public key, encoded as its 48
/// bytes.  The accessor indexes the commitment's first coefficient, which
/// the empty commitment - reachable through the library's own conversions -
/// does not have: such a set yields nothing instead of a panic.
#[verifier::external_body]
pub fn bls_public_key(pks: &threshold_crypto::PublicKeySet) -> (r: Option<Vec<u8>>)
    ensures
        r is Some ==> r.unwrap()@.len() == 48,
{
    let empty = threshold_crypto::poly::Poly::zero().commitment();
    if *pks == threshold_crypto::PublicKeySet::from(empty) {
        return None;
    }
    Some(pks.public_key().to_bytes().to_vec())
}

#[verifier::external_type_specification]
#[verifier::external_body]
pub struct ExSignatureShare(threshold_crypto::SignatureShare);

/// Relies on `threshold_crypto::SignatureShare::from_bytes`: decodes a share
/// from its 96 bytes, or nothing when the bytes are no valid share.
#[verifier::external_body]
pub fn bls_share_from_bytes(bytes: &Vec<u8>) -> (r: Option<threshold_crypto::SignatureShare>) {
    let arr: [u8; 96] = match bytes.as_slice().try_into() {
        Ok(a) => a,
        Err(_) => return None,
    };
    threshold_crypto::SignatureShare::from_bytes(arr).ok()
}

/// Relies on `threshold_crypto::PublicKeySet::combine_signatures` and
/// `Signature::to_bytes`: it errs only on a duplicate index or too few
/// shares; the shares' validity is not checked.  Returns the combined
/// signature's 96 bytes, or nothing when the library rejects the set.  The
/// empty commitment - whose degree the library cannot even compute - yields
/// nothing instead of a panic.
#[verifier::external_body]
pub fn bls_combine_decoded(
    pks: &threshold_crypto::PublicKeySet,
    shares: &Vec<(u64, threshold_crypto::SignatureShare)>,
) -> (r: Option<Vec<u8>>)
    ensures
        r is Some ==> r.unwrap()@.len() == 96,
{
    let empty = threshold_crypto::poly::Poly::zero().commitment();
    if *pks == threshold_crypto::PublicKeySet::from(empty) {
        return None;
    }
    match pks.combine_signatures(shares.iter().map(|(i, s)| (*i as usize, s))) {
        Ok(sig) => Some(sig.to_bytes().to_vec()),
        Err(_) => None,
    }
}

/// Decodes each share from its bytes, then combines them under the key set.
/// Returns the combined signature's 96 bytes; nothing when a share does not
/// decode or the library rejects the set.
pub fn bls_combine_signatures(
    pks: &threshold_crypto::PublicKeySet,
    shares: &Vec<(u64, Vec<u8>)>,
) -> (r: Option<Vec<u8>>)
    ensures
        r is Some ==> r.unwrap()@.len() == 96,
{
    let mut decoded: Vec<(u64, threshold_crypto::SignatureShare)> = Vec::new();
    let mut i: usize = 0;
    while i < shares.len()
        invariant
            i <= shares@.len(),
        decreases shares@.len() - i,
    {
        match bls_share_from_bytes(&shares[i].1) {
            Some(s) => decoded.push((shares[i].0, s)),
            None => {
                return None;
            },
        }
        i += 1;
    }
    bls_combine_decoded(pks, &decoded)
}

/// Relies on `rand::random`: 32 bytes drawn from the thread's generator.
/// Nothing is promised of their values.
#[verifier::external_body]
pub fn random_bytes32() -> (r: [u8; 32]) {
    rand::random()
}

} // verus!
