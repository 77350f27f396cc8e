use drift::auth::crypto::{
    aggregate_signatures, commit_payload_bytes, sign_message_with_iroh_keypair, sign_repo_commit, too_few_signatures_message,
    verify_repo_commit, verify_signature_with_iroh_pubkey, CryptoError,
};

fn keypair() -> ([u8; 32], [u8; 32]) {
    let sk = rand::random::<[u8; 32]>();
    let pk = ed25519_dalek::SigningKey::from_bytes(&sk).verifying_key().to_bytes();
    (sk, pk)
}

#[test]
fn test_sign_repo_commit_verify_success() {
    let (sk, pk) = keypair();
    let sig = sign_repo_commit("node1", "abc123", "https://github.com/user/repo", &sk);
    let result = verify_repo_commit(&pk, "node1", "abc123", "https://github.com/user/repo", &sig.to_vec());
    assert!(result.is_ok(), "verify with correct key should succeed");
}

#[test]
fn test_sign_repo_commit_verify_wrong_key() {
    let (sk1, _) = keypair();
    let (_, pk2) = keypair();
    let sig = sign_repo_commit("node1", "abc123", "https://github.com/user/repo", &sk1);
    let result = verify_repo_commit(&pk2, "node1", "abc123", "https://github.com/user/repo", &sig.to_vec());
    assert!(result.is_err(), "verify with wrong key should fail");
}

#[test]
fn test_sign_repo_commit_verify_wrong_message() {
    let (sk, pk) = keypair();
    let sig = sign_repo_commit("node1", "abc123", "https://github.com/user/repo", &sk);
    let result = verify_repo_commit(&pk, "node1", "different_commit", "https://github.com/user/repo", &sig.to_vec());
    assert!(result.is_err(), "verify with wrong message should fail");
}

#[test]
fn test_sign_repo_commit_verify_invalid_signature_bytes() {
    let (_, pk) = keypair();
    let bad_sig = vec![0u8; 64];
    let result = verify_repo_commit(&pk, "node1", "abc123", "https://github.com/user/repo", &bad_sig);
    assert!(result.is_err(), "verify with invalid signature bytes should fail");
}

#[test]
fn test_sign_verify_with_iroh_keys() {
    let (sk1, pk1) = keypair();
    let (_, pk2) = keypair();
    let sig = sign_message_with_iroh_keypair("node1", "repo_hash_abc123", 1234567890u64, 100u64, 1u64, &sk1).unwrap();
    let result = verify_signature_with_iroh_pubkey(&pk1, "node1", "repo_hash_abc123", 1234567890u64, 100u64, 1u64, &sig);
    assert!(result.is_ok(), "verify with correct key should succeed");
    let result = verify_signature_with_iroh_pubkey(&pk2, "node1", "repo_hash_abc123", 1234567890u64, 100u64, 1u64, &sig);
    assert!(result.is_err(), "verify with wrong key should fail");
}

#[test]
fn test_aggregate_signatures_threshold() {
    let keys: Vec<([u8; 32], [u8; 32])> = (0..5).map(|_| keypair()).collect();
    let sigs: Vec<[u8; 64]> = keys
        .iter()
        .map(|k| sign_message_with_iroh_keypair("node", "shared_repo", 999u64, 1u64, 1u64, &k.0).unwrap())
        .collect();
    let agg = aggregate_signatures(&sigs, 3);
    assert!(agg.is_ok(), "aggregation of 3-of-5 should succeed");
    let agg_sig = agg.unwrap();
    let result = verify_signature_with_iroh_pubkey(&keys[0].1, "node", "shared_repo", 999u64, 1u64, 1u64, &agg_sig);
    assert!(result.is_ok(), "aggregate should verify with creator key");
}

#[test]
fn test_aggregate_insufficient_signatures() {
    let sigs: Vec<[u8; 64]> = (0..2)
        .map(|_| sign_message_with_iroh_keypair("node", "repo", 1u64, 1u64, 1u64, &keypair().0).unwrap())
        .collect();
    let result = aggregate_signatures(&sigs, 3);
    assert!(result.is_err(), "aggregate with insufficient signatures should fail");
}

#[test]
fn commit_payload_is_pipe_separated() {
    assert_eq!(commit_payload_bytes("node1", "abc", "https://x/y"), b"node1|abc|https://x/y".to_vec());
}

#[test]
fn short_signature_is_refused() {
    let (sk, pk) = keypair();
    let sig = sign_repo_commit("n", "c", "u", &sk);
    assert_eq!(verify_repo_commit(&pk, "n", "c", "u", &sig[..63]), Err(CryptoError::VerificationFailed));
}

#[test]
fn too_few_signatures_text() {
    assert_eq!(too_few_signatures_message(2, 3), "only 2 signatures, need 3");
}
