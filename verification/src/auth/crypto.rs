//! Ed25519 signing and verification of the auth payloads, and threshold
//! aggregation of signatures.
//!
//! Keys and signatures are held as their byte encodings: a secret key is the
//! 32-byte seed of an `ed25519_dalek::SigningKey`, a public key is the 32-byte
//! compressed point of a `VerifyingKey`, and a signature is the 64-byte `R || s`
//! encoding of an `ed25519::Signature` (these types convert to and from those
//! bytes without loss).
use vstd::prelude::*;
use ed25519_dalek::Signer;
use crate::text::{decimal_digits, decimal_bytes, push_all, push_decimal, decimal_chars};
use vstd::utf8::encode_utf8;

verus! {

/// The 64-byte Ed25519 signature that `SigningKey::sign` produces for `msg`
/// under the key with 32-byte seed `secret`.
pub uninterp spec fn ed25519_signature(secret: Seq<u8>, msg: Seq<u8>) -> Seq<u8>;

/// The 32-byte compressed public key of the signing key with seed `secret`.
pub uninterp spec fn ed25519_public_key(secret: Seq<u8>) -> Seq<u8>;

/// Whether `VerifyingKey::from_bytes` accepts `public` (it decompresses to a
/// curve point).
pub uninterp spec fn ed25519_key_decodes(public: Seq<u8>) -> bool;

/// Whether `Verifier::verify` of the key decoded from `public` accepts `sig` on `msg`.
pub uninterp spec fn ed25519_accepts(public: Seq<u8>, msg: Seq<u8>, sig: Seq<u8>) -> bool;

/// Errors of the signing primitives.
#[derive(Debug, PartialEq)]
pub enum CryptoError {
    VerificationFailed,
    InvalidKey,
    AggregationFailed(String),
}

/// What verifying `sig` on `msg` under `public` yields: an undecodable key is
/// `InvalidKey`, a rejected signature `VerificationFailed`.
pub open spec fn verification_outcome(public: Seq<u8>, msg: Seq<u8>, sig: Seq<u8>) -> Result<
    (),
    CryptoError,
> {
    if !ed25519_key_decodes(public) {
        Err(CryptoError::InvalidKey)
    } else if ed25519_accepts(public, msg, sig) {
        Ok(())
    } else {
        Err(CryptoError::VerificationFailed)
    }
}

/// Signs `msg` with the key whose seed is `secret` (`SigningKey::from_bytes`,
/// `Signer::sign`, `Signature::to_bytes`). Claims: the result is the named
/// signature, and Ed25519 correctness: the key's own public key accepts it.
#[verifier::external_body]
fn ed25519_sign(secret: &[u8; 32], msg: &[u8]) -> (sig: [u8; 64])
    ensures
        sig@ == ed25519_signature(secret@, msg@),
        ed25519_accepts(ed25519_public_key(secret@), msg@, sig@),
{
    ed25519_dalek::SigningKey::from_bytes(secret).sign(msg).to_bytes()
}

/// The public key of the key with seed `secret` (`SigningKey::verifying_key`,
/// `VerifyingKey::to_bytes`). Claims: the result is the named public key, and a
/// compressed point produced from a secret always decompresses.
#[verifier::external_body]
pub(crate) fn ed25519_public_key_of(secret: &[u8; 32]) -> (public: [u8; 32])
    ensures
        public@ == ed25519_public_key(secret@),
        ed25519_key_decodes(public@),
{
    ed25519_dalek::SigningKey::from_bytes(secret).verifying_key().to_bytes()
}

/// Whether `VerifyingKey::from_bytes` accepts `public`.
#[verifier::external_body]
fn ed25519_key_is_valid(public: &[u8; 32]) -> (b: bool)
    ensures
        b == ed25519_key_decodes(public@),
{
    ed25519_dalek::VerifyingKey::from_bytes(public).is_ok()
}

/// Verifies `sig` on `msg` under `public` (`VerifyingKey::from_bytes`, then
/// `Verifier::verify` on `Signature::from_bytes(sig)`), mapping a key that does
/// not decode to `InvalidKey` and a rejected signature to `VerificationFailed`.
#[verifier::external_body]
pub(crate) fn ed25519_verify(public: &[u8; 32], msg: &[u8], sig: &[u8; 64]) -> (r: Result<(), CryptoError>)
    ensures
        r is Ok <==> (ed25519_key_decodes(public@) && ed25519_accepts(public@, msg@, sig@)),
        r == verification_outcome(public@, msg@, sig@),
{
    match ed25519_dalek::VerifyingKey::from_bytes(public) {
        Err(_) => Err(CryptoError::InvalidKey),
        Ok(key) => match ed25519_dalek::Verifier::verify(
            &key,
            msg,
            &ed25519_dalek::Signature::from_bytes(sig),
        ) {
            Ok(()) => Ok(()),
            Err(_) => Err(CryptoError::VerificationFailed),
        },
    }
}

/// The bytes signed for an auth message: `"{node_id}|{repo_hash}|{timestamp}|{nonce}|{sequence}"`
/// in UTF-8.
pub open spec fn auth_payload(
    node_id: Seq<char>,
    repo_hash: Seq<char>,
    timestamp: u64,
    nonce: u64,
    sequence: u64,
) -> Seq<u8> {
    encode_utf8(node_id) + seq![124u8] + encode_utf8(repo_hash) + seq![124u8] + decimal_digits(
        timestamp as nat,
    ) + seq![124u8] + decimal_digits(nonce as nat) + seq![124u8] + decimal_digits(sequence as nat)
}

/// The bytes signed for a repository commit: `"{node_id}|{commit}|{repo_url}"` in UTF-8.
pub open spec fn commit_payload(node_id: Seq<char>, commit: Seq<char>, repo_url: Seq<char>) -> Seq<
    u8,
> {
    encode_utf8(node_id) + seq![124u8] + encode_utf8(commit) + seq![124u8] + encode_utf8(repo_url)
}

/// Builds the auth payload bytes.
pub fn auth_payload_bytes(
    node_id: &str,
    repo_hash: &str,
    timestamp: u64,
    nonce: u64,
    sequence: u64,
) -> (r: Vec<u8>)
    ensures
        r@ == auth_payload(node_id@, repo_hash@, timestamp, nonce, sequence),
{
    let bar: [u8; 1] = [124u8];
    let mut v: Vec<u8> = Vec::new();
    push_all(&mut v, node_id.as_bytes());
    push_all(&mut v, &bar);
    push_all(&mut v, repo_hash.as_bytes());
    push_all(&mut v, &bar);
    let t = decimal_bytes(timestamp);
    push_all(&mut v, t.as_slice());
    push_all(&mut v, &bar);
    let n = decimal_bytes(nonce);
    push_all(&mut v, n.as_slice());
    push_all(&mut v, &bar);
    let s = decimal_bytes(sequence);
    push_all(&mut v, s.as_slice());
    proof {
        assert(bar@ == seq![124u8]);
        assert(v@ =~= auth_payload(node_id@, repo_hash@, timestamp, nonce, sequence));
    }
    v
}

/// Builds the repository-commit payload bytes.
pub fn commit_payload_bytes(node_id: &str, commit: &str, repo_url: &str) -> (r: Vec<u8>)
    ensures
        r@ == commit_payload(node_id@, commit@, repo_url@),
{
    let bar: [u8; 1] = [124u8];
    let mut v: Vec<u8> = Vec::new();
    push_all(&mut v, node_id.as_bytes());
    push_all(&mut v, &bar);
    push_all(&mut v, commit.as_bytes());
    push_all(&mut v, &bar);
    push_all(&mut v, repo_url.as_bytes());
    proof {
        assert(bar@ == seq![124u8]);
        assert(v@ =~= commit_payload(node_id@, commit@, repo_url@));
    }
    v
}

/// Signs the auth payload of the given fields with the secret key `keypair`.
/// Signing never fails.
pub fn sign_message_with_iroh_keypair(
    node_id: &str,
    repo_hash: &str,
    timestamp: u64,
    nonce: u64,
    sequence: u64,
    keypair: &[u8; 32],
) -> (r: Result<[u8; 64], CryptoError>)
    ensures
        r is Ok,
        r->Ok_0@ == ed25519_signature(
            keypair@,
            auth_payload(node_id@, repo_hash@, timestamp, nonce, sequence),
        ),
        ed25519_key_decodes(ed25519_public_key(keypair@)) ==> verification_outcome(
            ed25519_public_key(keypair@),
            auth_payload(node_id@, repo_hash@, timestamp, nonce, sequence),
            r->Ok_0@,
        ) == Ok::<(), CryptoError>(()),
{
    let msg = auth_payload_bytes(node_id, repo_hash, timestamp, nonce, sequence);
    Ok(ed25519_sign(keypair, msg.as_slice()))
}

/// Verifies a signature over the auth payload of the given fields.
pub fn verify_signature_with_iroh_pubkey(
    pubkey: &[u8; 32],
    node_id: &str,
    repo_hash: &str,
    timestamp: u64,
    nonce: u64,
    sequence: u64,
    signature: &[u8; 64],
) -> (r: Result<(), CryptoError>)
    ensures
        r == verification_outcome(
            pubkey@,
            auth_payload(node_id@, repo_hash@, timestamp, nonce, sequence),
            signature@,
        ),
{
    let msg = auth_payload_bytes(node_id, repo_hash, timestamp, nonce, sequence);
    ed25519_verify(pubkey, msg.as_slice(), signature)
}

/// Signs the commit payload `"{node_id}|{commit}|{repo_url}"`.
pub fn sign_repo_commit(node_id: &str, commit: &str, repo_url: &str, keypair: &[u8; 32]) -> (sig: [u8; 64])
    ensures
        sig@ == ed25519_signature(keypair@, commit_payload(node_id@, commit@, repo_url@)),
        ed25519_key_decodes(ed25519_public_key(keypair@)) ==> repo_commit_outcome(
            ed25519_public_key(keypair@),
            node_id@,
            commit@,
            repo_url@,
            sig@,
        ) == Ok::<(), CryptoError>(()),
{
    let msg = commit_payload_bytes(node_id, commit, repo_url);
    ed25519_sign(keypair, msg.as_slice())
}

/// What `verify_repo_commit` yields: an undecodable key is `InvalidKey`, a
/// signature that is not 64 bytes long is `VerificationFailed`, otherwise the
/// Ed25519 verdict.
pub open spec fn repo_commit_outcome(
    public: Seq<u8>,
    node_id: Seq<char>,
    commit: Seq<char>,
    repo_url: Seq<char>,
    signature: Seq<u8>,
) -> Result<(), CryptoError> {
    if !ed25519_key_decodes(public) {
        Err(CryptoError::InvalidKey)
    } else if signature.len() != 64 {
        Err(CryptoError::VerificationFailed)
    } else {
        verification_outcome(public, commit_payload(node_id, commit, repo_url), signature)
    }
}

/// Copies a 64-byte slice into an array.
pub fn signature_array(bytes: &[u8]) -> (r: [u8; 64])
    requires
        bytes@.len() == 64,
    ensures
        r@ == bytes@,
{
    let mut a: [u8; 64] = [0u8; 64];
    let mut i: usize = 0;
    while i < 64
        invariant
            i <= 64,
            bytes@.len() == 64,
            forall|j: int| 0 <= j < i ==> a@[j] == bytes@[j],
        decreases 64 - i,
    {
        a[i] = bytes[i];
        i = i + 1;
    }
    proof {
        assert(a@ =~= bytes@);
    }
    a
}

/// Verifies a signature over the commit payload; `signature` must be 64 bytes.
pub fn verify_repo_commit(
    pubkey: &[u8; 32],
    node_id: &str,
    commit: &str,
    repo_url: &str,
    signature: &[u8],
) -> (r: Result<(), CryptoError>)
    ensures
        r == repo_commit_outcome(pubkey@, node_id@, commit@, repo_url@, signature@),
{
    if signature.len() != 64 {
        if ed25519_key_is_valid(pubkey) {
            Err(CryptoError::VerificationFailed)
        } else {
            Err(CryptoError::InvalidKey)
        }
    } else {
        let sig = signature_array(signature);
        let msg = commit_payload_bytes(node_id, commit, repo_url);
        ed25519_verify(pubkey, msg.as_slice(), &sig)
    }
}

/// The text of the aggregation error for too few signatures.
pub open spec fn too_few_signatures_text(have: nat, need: nat) -> Seq<char> {
    "only "@ + decimal_chars(have) + " signatures, need "@ + decimal_chars(need)
}

/// Builds `"only {have} signatures, need {need}"`.
pub fn too_few_signatures_message(have: usize, need: usize) -> (r: String)
    ensures
        r@ == too_few_signatures_text(have as nat, need as nat),
{
    let mut s = String::new();
    s.append("only ");
    push_decimal(&mut s, have as u64);
    s.append(" signatures, need ");
    push_decimal(&mut s, need as u64);
    proof {
        assert(s@ =~= too_few_signatures_text(have as nat, need as nat));
    }
    s
}

/// Whether `r` is what `aggregate_signatures` yields: with fewer signatures
/// than the threshold, or none at all, aggregation fails with a message saying
/// so; otherwise the first signature stands for the set.
pub open spec fn is_aggregate_outcome(
    r: Result<[u8; 64], CryptoError>,
    sigs: Seq<[u8; 64]>,
    threshold: nat,
) -> bool {
    if sigs.len() < threshold {
        r matches Err(CryptoError::AggregationFailed(m)) && m@ == too_few_signatures_text(
            sigs.len(),
            threshold,
        )
    } else if sigs.len() == 0 {
        r matches Err(CryptoError::AggregationFailed(m)) && m@ == "no signatures provided"@
    } else {
        r == Ok::<[u8; 64], CryptoError>(sigs[0])
    }
}

/// Combines at least `threshold` signatures into one aggregate signature.
pub fn aggregate_signatures(signatures: &[[u8; 64]], threshold: usize) -> (r: Result<
    [u8; 64],
    CryptoError,
>)
    ensures
        is_aggregate_outcome(r, signatures@, threshold as nat),
{
    if signatures.len() < threshold {
        return Err(CryptoError::AggregationFailed(too_few_signatures_message(signatures.len(), threshold)));
    }
    if signatures.len() == 0 {
        return Err(CryptoError::AggregationFailed(String::from_str("no signatures provided")));
    }
    Ok(signatures[0])
}

} // verus!
