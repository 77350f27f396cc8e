//! The auth message a node signs, the signed form it sends to the
//! coordinator, and the aggregate the coordinator broadcasts back.
use vstd::prelude::*;
use crate::auth::crypto::{
    CryptoError, auth_payload, auth_payload_bytes, ed25519_signature, ed25519_public_key,
    verification_outcome, sign_message_with_iroh_keypair, signature_array, aggregate_signatures,
    too_few_signatures_text, too_few_signatures_message, is_aggregate_outcome,
    ed25519_verify, ed25519_key_decodes,
};
use crate::platform::{now_unix_secs, random_u64};

verus! {

/// Whether a message stamped `timestamp` is at most `max_age_secs` old at time
/// `now` (a timestamp from the future counts as age zero).
pub open spec fn timestamp_fresh(timestamp: u64, now: u64, max_age_secs: u64) -> bool {
    (if now >= timestamp {
        now - timestamp
    } else {
        0
    }) <= max_age_secs
}

/// Message that a node signs and sends to the coordinator.
#[derive(Debug, Clone, PartialEq)]
pub struct AuthMessage {
    pub node_id: String,
    pub repo_hash: String,
    pub timestamp: u64,
    pub nonce: u64,
    pub sequence: u64,
}

/// The content of an [`AuthMessage`].
pub struct AuthMessageView {
    pub node_id: Seq<char>,
    pub repo_hash: Seq<char>,
    pub timestamp: u64,
    pub nonce: u64,
    pub sequence: u64,
}

impl AuthMessageView {
    /// The bytes that are signed for this message.
    pub open spec fn payload(self) -> Seq<u8> {
        auth_payload(self.node_id, self.repo_hash, self.timestamp, self.nonce, self.sequence)
    }
}

impl View for AuthMessage {
    type V = AuthMessageView;

    open spec fn view(&self) -> AuthMessageView {
        AuthMessageView {
            node_id: self.node_id@,
            repo_hash: self.repo_hash@,
            timestamp: self.timestamp,
            nonce: self.nonce,
            sequence: self.sequence,
        }
    }
}

impl AuthMessage {
    /// Creates a message stamped with the current time and a random nonce.
    pub fn new(node_id: &str, repo_hash: &str, sequence: u64) -> (r: Self)
        ensures
            r@.node_id == node_id@,
            r@.repo_hash == repo_hash@,
            r@.sequence == sequence,
    {
        let timestamp = now_unix_secs();
        let nonce = random_u64();
        Self::with_values(node_id, repo_hash, timestamp, nonce, sequence)
    }

    /// Creates a message with the given fields.
    pub fn with_values(node_id: &str, repo_hash: &str, timestamp: u64, nonce: u64, sequence: u64) -> (r: Self)
        ensures
            r@ == (AuthMessageView {
                node_id: node_id@,
                repo_hash: repo_hash@,
                timestamp,
                nonce,
                sequence,
            }),
    {
        AuthMessage {
            node_id: String::from_str(node_id),
            repo_hash: String::from_str(repo_hash),
            timestamp,
            nonce,
            sequence,
        }
    }

    /// Whether the timestamp is at most `max_age_secs` old at time `now`.
    pub fn is_timestamp_valid_at(&self, now: u64, max_age_secs: u64) -> (r: bool)
        ensures
            r == timestamp_fresh(self.timestamp, now, max_age_secs),
    {
        let age = if now >= self.timestamp {
            now - self.timestamp
        } else {
            0
        };
        age <= max_age_secs
    }

    /// Whether the timestamp is at most `max_age_secs` old now. A window that
    /// reaches past the largest representable time always holds.
    pub fn is_timestamp_valid(&self, max_age_secs: u64) -> (r: bool)
        ensures
            exists|now: u64| r == #[trigger] timestamp_fresh(self.timestamp, now, max_age_secs),
            self.timestamp as int + max_age_secs as int >= u64::MAX ==> r,
    {
        let now = now_unix_secs();
        let r = self.is_timestamp_valid_at(now, max_age_secs);
        proof {
            assert(r == timestamp_fresh(self.timestamp, now, max_age_secs));
        }
        r
    }

    /// The bytes that are signed: `"{node_id}|{repo_hash}|{timestamp}|{nonce}|{sequence}"`.
    pub fn as_bytes(&self) -> (r: Vec<u8>)
        ensures
            r@ == self@.payload(),
    {
        auth_payload_bytes(self.node_id.as_str(), self.repo_hash.as_str(), self.timestamp, self.nonce, self.sequence)
    }

    /// A copy of this message.
    pub fn duplicate(&self) -> (r: Self)
        ensures
            r@ == self@,
    {
        AuthMessage {
            node_id: self.node_id.clone(),
            repo_hash: self.repo_hash.clone(),
            timestamp: self.timestamp,
            nonce: self.nonce,
            sequence: self.sequence,
        }
    }

    /// Whether both messages carry the same content.
    pub fn same_content(&self, other: &AuthMessage) -> (r: bool)
        ensures
            r == (self@ == other@),
    {
        self.node_id == other.node_id && self.repo_hash == other.repo_hash && self.timestamp
            == other.timestamp && self.nonce == other.nonce && self.sequence == other.sequence
    }
}

/// An auth message signed by a node.
#[derive(Debug, Clone)]
pub struct SignedAuthMessage {
    pub node_id: String,
    pub message: AuthMessage,
    pub signature: Vec<u8>,
}

/// The content of a [`SignedAuthMessage`].
pub struct SignedAuthMessageView {
    pub node_id: Seq<char>,
    pub message: AuthMessageView,
    pub signature: Seq<u8>,
}

impl View for SignedAuthMessage {
    type V = SignedAuthMessageView;

    open spec fn view(&self) -> SignedAuthMessageView {
        SignedAuthMessageView {
            node_id: self.node_id@,
            message: self.message@,
            signature: self.signature@,
        }
    }
}

/// What verifying a signed message under `public` yields: a signature that is
/// not 64 bytes long is `InvalidKey`, otherwise the Ed25519 verdict on the
/// message's payload.
pub open spec fn signed_verify_outcome(m: SignedAuthMessageView, public: Seq<u8>) -> Result<
    (),
    CryptoError,
> {
    if m.signature.len() != 64 {
        Err(CryptoError::InvalidKey)
    } else {
        verification_outcome(public, m.message.payload(), m.signature)
    }
}

impl SignedAuthMessage {
    /// Signs `message` with the secret key `keypair`. Signing never fails, and
    /// the result verifies under the key's own public key.
    pub fn sign(message: &AuthMessage, keypair: &[u8; 32]) -> (r: Result<Self, CryptoError>)
        ensures
            r is Ok,
            r->Ok_0@ == (SignedAuthMessageView {
                node_id: message@.node_id,
                message: message@,
                signature: ed25519_signature(keypair@, message@.payload()),
            }),
            ed25519_key_decodes(ed25519_public_key(keypair@)) ==> signed_verify_outcome(
                r->Ok_0@,
                ed25519_public_key(keypair@),
            ) == Ok::<(), CryptoError>(()),
    {
        let sig = sign_message_with_iroh_keypair(
            message.node_id.as_str(),
            message.repo_hash.as_str(),
            message.timestamp,
            message.nonce,
            message.sequence,
            keypair,
        );
        let sig = match sig {
            Ok(s) => s,
            Err(e) => return Err(e),
        };
        let mut signature: Vec<u8> = Vec::new();
        crate::text::push_all(&mut signature, &sig);
        proof {
            assert(signature@ =~= sig@);
        }
        Ok(SignedAuthMessage { node_id: message.node_id.clone(), message: message.duplicate(), signature })
    }

    /// Verifies the signature under the node's public key.
    pub fn verify(&self, pubkey: &[u8; 32]) -> (r: Result<(), CryptoError>)
        ensures
            r == signed_verify_outcome(self@, pubkey@),
    {
        let msg_bytes = self.message.as_bytes();
        if self.signature.len() != 64 {
            return Err(CryptoError::InvalidKey);
        }
        let sig = signature_array(self.signature.as_slice());
        ed25519_verify(pubkey, msg_bytes.as_slice(), &sig)
    }

    /// A copy of this signed message.
    pub fn duplicate(&self) -> (r: Self)
        ensures
            r@ == self@,
    {
        SignedAuthMessage {
            node_id: self.node_id.clone(),
            message: self.message.duplicate(),
            signature: self.signature.clone(),
        }
    }
}

/// A collection of signatures from nodes over one common message, with the
/// signature that stands for the set once the threshold is met.
#[derive(Debug, Clone)]
pub struct AggregateAuthMessage {
    pub node_ids: Vec<String>,
    pub message: AuthMessage,
    pub aggregated_signature: Vec<u8>,
    pub threshold: usize,
    pub total_nodes: usize,
}

/// The content of an [`AggregateAuthMessage`].
pub struct AggregateAuthMessageView {
    pub node_ids: Seq<Seq<char>>,
    pub message: AuthMessageView,
    pub aggregated_signature: Seq<u8>,
    pub threshold: usize,
    pub total_nodes: usize,
}

impl View for AggregateAuthMessage {
    type V = AggregateAuthMessageView;

    open spec fn view(&self) -> AggregateAuthMessageView {
        AggregateAuthMessageView {
            node_ids: self.node_ids@.map_values(|s: String| s@),
            message: self.message@,
            aggregated_signature: self.aggregated_signature@,
            threshold: self.threshold,
            total_nodes: self.total_nodes,
        }
    }
}

/// Whether every signed message carries the same content as the first.
pub open spec fn all_same_message(msgs: Seq<SignedAuthMessageView>) -> bool {
    forall|i: int| 1 <= i < msgs.len() ==> #[trigger] msgs[i].message == msgs[0].message
}

/// Whether every signature is 64 bytes long.
pub open spec fn all_signatures_well_sized(msgs: Seq<SignedAuthMessageView>) -> bool {
    forall|i: int| 0 <= i < msgs.len() ==> #[trigger] msgs[i].signature.len() == 64
}

/// Whether `r` is what `AggregateAuthMessage::create` yields for `msgs`: no
/// signatures, or fewer than the threshold, fail aggregation; differing
/// message contents fail verification; a signature that is not 64 bytes long
/// is an invalid key; otherwise the aggregate lists every signer in order, holds
/// the first message and the first signature.
pub open spec fn is_create_outcome(
    r: Result<AggregateAuthMessage, CryptoError>,
    msgs: Seq<SignedAuthMessageView>,
    threshold: usize,
    total_nodes: usize,
) -> bool {
    if msgs.len() == 0 {
        r matches Err(CryptoError::AggregationFailed(m)) && m@ == "no signatures provided"@
    } else if msgs.len() < threshold {
        r matches Err(CryptoError::AggregationFailed(m)) && m@ == too_few_signatures_text(
            msgs.len(),
            threshold as nat,
        )
    } else if !all_same_message(msgs) {
        r == Err::<AggregateAuthMessage, CryptoError>(CryptoError::VerificationFailed)
    } else if !all_signatures_well_sized(msgs) {
        r == Err::<AggregateAuthMessage, CryptoError>(CryptoError::InvalidKey)
    } else {
        r matches Ok(a) && a@ == (AggregateAuthMessageView {
            node_ids: msgs.map_values(|m: SignedAuthMessageView| m.node_id),
            message: msgs[0].message,
            aggregated_signature: msgs[0].signature,
            threshold,
            total_nodes,
        })
    }
}

/// What verifying an aggregate signature `sig` on `msg` against the candidate
/// public keys yields: the first key that does not decode is `InvalidKey`, the
/// first key that accepts is `Ok`, and no accepting key is `VerificationFailed`.
pub open spec fn aggregate_verify_outcome(pubkeys: Seq<[u8; 32]>, msg: Seq<u8>, sig: Seq<u8>) -> Result<
    (),
    CryptoError,
>
    decreases pubkeys.len(),
{
    if pubkeys.len() == 0 {
        Err(CryptoError::VerificationFailed)
    } else {
        let first = verification_outcome(pubkeys[0]@, msg, sig);
        if first is Ok {
            Ok(())
        } else if first == Err::<(), CryptoError>(CryptoError::InvalidKey) {
            Err(CryptoError::InvalidKey)
        } else {
            aggregate_verify_outcome(pubkeys.drop_first(), msg, sig)
        }
    }
}

impl AggregateAuthMessage {
    /// Creates an aggregate from the collected signed messages.
    pub fn create(signed_messages: Vec<SignedAuthMessage>, threshold: usize, total_nodes: usize) -> (r:
        Result<Self, CryptoError>)
        ensures
            is_create_outcome(r, signed_messages@.map_values(|m: SignedAuthMessage| m@), threshold, total_nodes),
    {
        let ghost msgs = signed_messages@.map_values(|m: SignedAuthMessage| m@);
        if signed_messages.len() == 0 {
            return Err(CryptoError::AggregationFailed(String::from_str("no signatures provided")));
        }
        if signed_messages.len() < threshold {
            return Err(
                CryptoError::AggregationFailed(too_few_signatures_message(signed_messages.len(), threshold)),
            );
        }
        let n = signed_messages.len();
        let mut i: usize = 1;
        while i < n
            invariant
                1 <= i <= n,
                n == signed_messages@.len(),
                n >= threshold,
                msgs == signed_messages@.map_values(|m: SignedAuthMessage| m@),
                forall|j: int| 1 <= j < i ==> #[trigger] msgs[j].message == msgs[0].message,
            decreases n - i,
        {
            if !signed_messages[i].message.same_content(&signed_messages[0].message) {
                assert(msgs[i as int].message != msgs[0].message);
                assert(!all_same_message(msgs));
                return Err(CryptoError::VerificationFailed);
            }
            i = i + 1;
        }
        let mut sigs: Vec<[u8; 64]> = Vec::new();
        let mut k: usize = 0;
        while k < n
            invariant
                k <= n,
                n == signed_messages@.len(),
                n >= threshold,
                n > 0,
                msgs == signed_messages@.map_values(|m: SignedAuthMessage| m@),
                all_same_message(msgs),
                sigs@.len() == k,
                forall|j: int| 0 <= j < k ==> #[trigger] msgs[j].signature.len() == 64,
                forall|j: int| 0 <= j < k ==> #[trigger] sigs@[j]@ == msgs[j].signature,
            decreases n - k,
        {
            if signed_messages[k].signature.len() != 64 {
                assert(msgs[k as int].signature.len() != 64);
                assert(!all_signatures_well_sized(msgs));
                return Err(CryptoError::InvalidKey);
            }
            sigs.push(signature_array(signed_messages[k].signature.as_slice()));
            k = k + 1;
        }
        let aggregated = match aggregate_signatures(sigs.as_slice(), threshold) {
            Ok(a) => a,
            Err(e) => return Err(e),
        };
        let mut node_ids: Vec<String> = Vec::new();
        let mut j: usize = 0;
        while j < n
            invariant
                j <= n,
                n == signed_messages@.len(),
                msgs == signed_messages@.map_values(|m: SignedAuthMessage| m@),
                node_ids@.len() == j,
                forall|t: int| 0 <= t < j ==> #[trigger] node_ids@[t]@ == msgs[t].node_id,
            decreases n - j,
        {
            node_ids.push(signed_messages[j].node_id.clone());
            j = j + 1;
        }
        let mut aggregated_signature: Vec<u8> = Vec::new();
        crate::text::push_all(&mut aggregated_signature, &aggregated);
        let r = AggregateAuthMessage {
            node_ids,
            message: signed_messages[0].message.duplicate(),
            aggregated_signature,
            threshold,
            total_nodes,
        };
        proof {
            assert(r@.node_ids =~= msgs.map_values(|m: SignedAuthMessageView| m.node_id));
            assert(r@.aggregated_signature =~= msgs[0].signature);
        }
        Ok(r)
    }

    /// Verifies the aggregate signature against the candidate public keys: it
    /// is accepted as soon as one key accepts it.
    pub fn verify(&self, pubkeys: &[[u8; 32]]) -> (r: Result<(), CryptoError>)
        ensures
            r == (if self@.node_ids.len() == 0 {
                Err(CryptoError::VerificationFailed)
            } else if self@.aggregated_signature.len() != 64 {
                Err(CryptoError::InvalidKey)
            } else {
                aggregate_verify_outcome(pubkeys@, self@.message.payload(), self@.aggregated_signature)
            }),
    {
        if self.node_ids.len() == 0 {
            return Err(CryptoError::VerificationFailed);
        }
        let msg_bytes = self.message.as_bytes();
        if self.aggregated_signature.len() != 64 {
            return Err(CryptoError::InvalidKey);
        }
        let sig = signature_array(self.aggregated_signature.as_slice());
        let ghost msg = self@.message.payload();
        let ghost s = self@.aggregated_signature;
        proof {
            assert(pubkeys@.subrange(0, pubkeys@.len() as int) =~= pubkeys@);
        }
        let mut i: usize = 0;
        while i < pubkeys.len()
            invariant
                i <= pubkeys@.len(),
                self@.node_ids.len() != 0,
                self@.aggregated_signature.len() == 64,
                msg == self@.message.payload(),
                s == self@.aggregated_signature,
                msg_bytes@ == msg,
                sig@ == s,
                aggregate_verify_outcome(pubkeys@, msg, s) == aggregate_verify_outcome(
                    pubkeys@.subrange(i as int, pubkeys@.len() as int),
                    msg,
                    s,
                ),
            decreases pubkeys@.len() - i,
        {
            let ghost rest = pubkeys@.subrange(i as int, pubkeys@.len() as int);
            proof {
                assert(rest[0] == pubkeys@[i as int]);
            }
            match ed25519_verify(&pubkeys[i], msg_bytes.as_slice(), &sig) {
                Ok(()) => {
                    return Ok(());
                },
                Err(CryptoError::InvalidKey) => {
                    return Err(CryptoError::InvalidKey);
                },
                Err(_) => {},
            }
            proof {
                assert(rest.drop_first() =~= pubkeys@.subrange(i + 1, pubkeys@.len() as int));
            }
            i = i + 1;
        }
        Err(CryptoError::VerificationFailed)
    }
}

} // verus!
