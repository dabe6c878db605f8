//! The signature accumulator, driven with real threshold signatures.

use routing::accumulator::SignatureAccumulator;
use routing::crypto::bls_verify;
use routing::error::RoutingError;
use threshold_crypto::SecretKeySet;

fn share_bytes(sk_set: &SecretKeySet, index: u64, msg: &[u8]) -> Vec<u8> {
    sk_set.secret_key_share(index as usize).sign(msg).to_bytes().to_vec()
}

#[test]
fn accumulator_threshold() {
    // With four signers and a threshold of three: two shares produce
    // nothing, the third produces one combined signature, the fourth
    // produces nothing again.
    let mut rng = rand::thread_rng();
    let sk_set = SecretKeySet::random(2, &mut rng);
    let pk_set = sk_set.public_keys();
    let msg = b"agreed payload".to_vec();

    let mut acc = SignatureAccumulator::new(3);
    let r0 = acc.add_share(&pk_set, &msg, 0, &share_bytes(&sk_set, 0, &msg), 0).unwrap();
    assert!(r0.is_none());
    let r1 = acc.add_share(&pk_set, &msg, 1, &share_bytes(&sk_set, 1, &msg), 0).unwrap();
    assert!(r1.is_none());
    let r2 = acc.add_share(&pk_set, &msg, 2, &share_bytes(&sk_set, 2, &msg), 0).unwrap();
    let combined = r2.expect("threshold reached");
    // The combined signature verifies under the master public key.
    let master = pk_set.public_key().to_bytes().to_vec();
    assert!(bls_verify(&master, &combined, &msg));
    // A later share never fires the entry again.
    let r3 = acc.add_share(&pk_set, &msg, 3, &share_bytes(&sk_set, 3, &msg), 0).unwrap();
    assert!(r3.is_none());
}

#[test]
fn accumulator_below_threshold_never_fires() {
    let mut rng = rand::thread_rng();
    let sk_set = SecretKeySet::random(2, &mut rng);
    let pk_set = sk_set.public_keys();
    let msg = b"still waiting".to_vec();

    let mut acc = SignatureAccumulator::new(3);
    assert!(acc.add_share(&pk_set, &msg, 0, &share_bytes(&sk_set, 0, &msg), 0).unwrap().is_none());
    assert!(acc.add_share(&pk_set, &msg, 1, &share_bytes(&sk_set, 1, &msg), 0).unwrap().is_none());
}

#[test]
fn accumulator_duplicate_share_never_double_counts() {
    let mut rng = rand::thread_rng();
    let sk_set = SecretKeySet::random(2, &mut rng);
    let pk_set = sk_set.public_keys();
    let msg = b"no double counting".to_vec();

    let mut acc = SignatureAccumulator::new(3);
    let s0 = share_bytes(&sk_set, 0, &msg);
    assert!(acc.add_share(&pk_set, &msg, 0, &s0, 0).unwrap().is_none());
    // The same share again is idempotent: still only one share collected.
    assert!(acc.add_share(&pk_set, &msg, 0, &s0, 0).unwrap().is_none());
    assert!(acc.add_share(&pk_set, &msg, 1, &share_bytes(&sk_set, 1, &msg), 0).unwrap().is_none());
    // Only the third distinct index fires.
    let fired = acc.add_share(&pk_set, &msg, 2, &share_bytes(&sk_set, 2, &msg), 0).unwrap();
    assert!(fired.is_some());
}

#[test]
fn accumulator_rejects_conflicting_share() {
    let mut rng = rand::thread_rng();
    let sk_set = SecretKeySet::random(2, &mut rng);
    let pk_set = sk_set.public_keys();
    let msg = b"conflicting submission".to_vec();

    let mut acc = SignatureAccumulator::new(3);
    let s0 = share_bytes(&sk_set, 0, &msg);
    assert!(acc.add_share(&pk_set, &msg, 0, &s0, 0).unwrap().is_none());
    let different = share_bytes(&sk_set, 3, &msg);
    let err = acc.add_share(&pk_set, &msg, 0, &different, 0).unwrap_err();
    assert_eq!(err, RoutingError::InvalidSignatureShare);
}

#[test]
fn accumulator_reports_failed_combining() {
    // Shares that are no valid encodings reach the threshold, combining
    // fails, and the entry reopens.
    let mut rng = rand::thread_rng();
    let sk_set = SecretKeySet::random(2, &mut rng);
    let pk_set = sk_set.public_keys();
    let msg = b"garbage shares".to_vec();

    let mut acc = SignatureAccumulator::new(3);
    assert!(acc.add_share(&pk_set, &msg, 0, &vec![1u8, 2, 3], 0).unwrap().is_none());
    assert!(acc.add_share(&pk_set, &msg, 1, &vec![4u8, 5, 6], 0).unwrap().is_none());
    let err = acc.add_share(&pk_set, &msg, 2, &vec![7u8, 8, 9], 0).unwrap_err();
    assert_eq!(err, RoutingError::FailedSignature);
}

#[test]
fn accumulator_expires_old_entries() {
    let mut rng = rand::thread_rng();
    let sk_set = SecretKeySet::random(2, &mut rng);
    let pk_set = sk_set.public_keys();
    let msg = b"stale entry".to_vec();

    let mut acc = SignatureAccumulator::new(3);
    assert!(acc.add_share(&pk_set, &msg, 0, &share_bytes(&sk_set, 0, &msg), 0).unwrap().is_none());
    // Not yet expired just before the timeout.
    assert_eq!(acc.remove_expired(119_999), 0);
    // Expired at the timeout: the partial state for the digest is dropped.
    assert_eq!(acc.remove_expired(120_000), 1);
    assert_eq!(acc.entries.len(), 0);
}
