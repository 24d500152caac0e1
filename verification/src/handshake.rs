//! The authenticated secure-channel handshake: listener, per-session
//! handshake state machine, and the driver that turns a raw exchange
//! into a mutually authenticated Encryptor/Decryptor pair.
//!
//! The protocol runs in three messages.  The first carries the
//! initiator's ephemeral key-exchange value; the second the responder's
//! value together with its identity proof — a signature over the
//! channel-binding transcript — and optional credential; the third the
//! initiator's own proof.  Each side walks the states
//! `AwaitingHandshake → KeyExchangeInProgress → AwaitingIdentityProof →
//! AwaitingTrustDecision → Established`, dropping to `Failed` on a bad
//! signature (a cryptographic failure) or a trust-policy rejection —
//! two failures deliberately kept distinct.  The key exchange and
//! signature scheme are models of the pluggable cryptographic
//! capability; what is proved is the protocol around them.

use vstd::prelude::*;
use vstd::string::StringExecFns;

use crate::address::Address;
use crate::channel::Decryptor;
use crate::channel::Encryptor;
use crate::flow_control::FlowControlId;
use crate::flow_control::FlowControls;
use crate::identity::policy_accepts;
use crate::identity::signature_of;
use crate::identity::Credential;
use crate::identity::CredentialView;
use crate::identity::Identity;
use crate::identity::TrustPolicy;
use crate::identity::TrustPolicyView;
use crate::mailbox::LocalMessage;
use crate::route::RouteError;

verus! {

/// Blinding constant of the modelled key exchange.
pub const KEX_BLIND: u64 = 0x9e3779b97f4a7c15;

/// Direction constant separating the initiator-to-responder key.
pub const DIR_I2R: u64 = 0x5851f42d4c957f2d;

/// Direction constant separating the responder-to-initiator key.
pub const DIR_R2I: u64 = 0x14057b7ef767814f;

/// The public value a party sends for its ephemeral secret.
pub open spec fn kex_public(secret: u64) -> u64 {
    secret ^ KEX_BLIND
}

/// The shared secret a party derives from its own ephemeral secret and
/// the peer's public value.
pub open spec fn shared_secret(secret: u64, peer_public: u64) -> u64 {
    secret ^ peer_public ^ KEX_BLIND
}

/// Both parties derive the same shared secret.
pub proof fn lemma_shared_secret_symmetric(a: u64, b: u64)
    ensures
        shared_secret(a, kex_public(b)) == shared_secret(b, kex_public(a)),
{
    let m = KEX_BLIND;
    assert(a ^ (b ^ m) ^ m == b ^ (a ^ m) ^ m) by (bit_vector);
}

/// The key protecting initiator-to-responder traffic.
pub open spec fn key_i2r(shared: u64) -> u64 {
    shared ^ DIR_I2R
}

/// The key protecting responder-to-initiator traffic.
pub open spec fn key_r2i(shared: u64) -> u64 {
    shared ^ DIR_R2I
}

fn kex_public_exec(secret: u64) -> (r: u64)
    ensures
        r == kex_public(secret),
{
    secret ^ KEX_BLIND
}

fn shared_secret_exec(secret: u64, peer_public: u64) -> (r: u64)
    ensures
        r == shared_secret(secret, peer_public),
{
    secret ^ peer_public ^ KEX_BLIND
}

/// How a handshake attempt failed.
#[derive(Clone, Copy, Debug, PartialEq, Eq, Structural)]
pub enum HandshakeError {
    /// The transcript or a signature did not check out — an attacker or
    /// a corrupted exchange.
    CryptoFailure,
    /// The peer proved its identity, but the trust policy rejects it —
    /// a policy mismatch, not an attack.
    TrustRejected,
}

/// Where a handshake stands.
#[derive(Clone, Copy, Debug, PartialEq, Eq, Structural)]
pub enum HandshakeState {
    /// A responder waiting for the first message.
    AwaitingHandshake,
    /// An initiator that has sent its key-exchange value.
    KeyExchangeInProgress,
    /// Keys agreed; waiting for the peer's identity proof.
    AwaitingIdentityProof,
    /// Identity proven; the trust policy has yet to rule.
    AwaitingTrustDecision,
    /// The channel is up.
    Established,
    /// This attempt is over; the key material is discarded.
    Failed(HandshakeError),
}

/// Which side of the handshake a worker plays.
#[derive(Clone, Copy, Debug, PartialEq, Eq, Structural)]
pub enum Role {
    Initiator,
    Responder,
}

/// The first protocol message: the initiator's key-exchange value.
pub struct Message1 {
    pub public_key: u64,
}

/// An identity proof: the claimed identifier and key, a signature over
/// the transcript, and an optional credential.
pub struct IdentityProof {
    pub identifier: String,
    pub public_key: u64,
    pub signature: u64,
    pub credential: Option<Credential>,
}

/// The second protocol message: the responder's key-exchange value and
/// identity proof.
pub struct Message2 {
    pub public_key: u64,
    pub proof: IdentityProof,
}

/// The third protocol message: the initiator's identity proof.
pub struct Message3 {
    pub proof: IdentityProof,
}

/// The credential of a proof, as a model value.
pub open spec fn proof_credential(p: &IdentityProof) -> Option<CredentialView> {
    match p.credential {
        Some(c) => Some(c@),
        None => None,
    }
}

/// The four fresh worker addresses of one secure-channel instance: a
/// remote-facing pair and an internal companion pair not reachable
/// externally.
pub struct ChannelAddresses {
    pub decryptor_remote: Address,
    pub decryptor_internal: Address,
    pub encryptor_remote: Address,
    pub encryptor_internal: Address,
}

impl ChannelAddresses {
    /// True when no two of the four addresses name the same mailbox.
    pub open spec fn distinct(&self) -> bool {
        &&& self.decryptor_remote@ != self.decryptor_internal@
        &&& self.decryptor_remote@ != self.encryptor_remote@
        &&& self.decryptor_remote@ != self.encryptor_internal@
        &&& self.decryptor_internal@ != self.encryptor_remote@
        &&& self.decryptor_internal@ != self.encryptor_internal@
        &&& self.encryptor_remote@ != self.encryptor_internal@
    }

    /// Four fresh local addresses for a new channel instance.  The
    /// random suffixes are chance, but what holds of every outcome is
    /// promised: the four addresses are pairwise distinct, each marked
    /// by its own tag, so the instance's mailboxes and flow registrations
    /// can never collide with one another.
    pub fn generate() -> (r: Self)
        ensures
            r.decryptor_remote@.transport == crate::address::LOCAL,
            r.decryptor_internal@.transport == crate::address::LOCAL,
            r.encryptor_remote@.transport == crate::address::LOCAL,
            r.encryptor_internal@.transport == crate::address::LOCAL,
            r.distinct(),
    {
        let decryptor_remote = Address::random_tagged("decryptor_remote");
        let decryptor_internal = Address::random_tagged("decryptor_internal");
        let encryptor_remote = Address::random_tagged("encryptor_remote");
        let encryptor_internal = Address::random_tagged("encryptor_internal");
        proof {
            reveal_strlit("decryptor_remote");
            reveal_strlit("decryptor_internal");
            reveal_strlit("encryptor_remote");
            reveal_strlit("encryptor_internal");
            // Names under tags of different lengths differ in length;
            // the two remote tags and the two internal tags differ in
            // their first character.
            assert(decryptor_remote@.name[0] == 'd') by {
                assert(decryptor_remote@.name.subrange(0, 16)[0] == decryptor_remote@.name[0]);
            }
            assert(encryptor_remote@.name[0] == 'e') by {
                assert(encryptor_remote@.name.subrange(0, 16)[0] == encryptor_remote@.name[0]);
            }
            assert(decryptor_internal@.name[0] == 'd') by {
                assert(decryptor_internal@.name.subrange(0, 18)[0] == decryptor_internal@.name[0]);
            }
            assert(encryptor_internal@.name[0] == 'e') by {
                assert(encryptor_internal@.name.subrange(0, 18)[0] == encryptor_internal@.name[0]);
            }
        }
        ChannelAddresses {
            decryptor_remote,
            decryptor_internal,
            encryptor_remote,
            encryptor_internal,
        }
    }
}

/// One side of an established channel: the worker pair holding the
/// session keys, created together and destroyed together.
pub struct SecureChannel {
    pub encryptor: Encryptor,
    pub decryptor: Decryptor,
    pub addresses: ChannelAddresses,
    pub flow_control_id: FlowControlId,
}

/// The transient worker owning one in-progress or established handshake:
/// the transcript state, the negotiated secret, and the local identity
/// and trust policy it acts for.  Destroyed on failure or teardown.
pub struct HandshakeWorker {
    role: Role,
    state: HandshakeState,
    identity: Identity,
    trust_policy: TrustPolicy,
    credential: Option<Credential>,
    secret: u64,
    transcript: Option<(u64, u64)>,
    shared: Option<u64>,
    peer_identifier: Option<String>,
    peer_credential: Option<Credential>,
    addresses: ChannelAddresses,
    flow_control_id: FlowControlId,
}

impl HandshakeWorker {
    /// Which side this worker plays.
    pub closed spec fn spec_role(&self) -> Role {
        self.role
    }

    /// Where this worker's handshake stands.
    pub closed spec fn spec_state(&self) -> HandshakeState {
        self.state
    }

    /// The local identity this worker proves.
    pub closed spec fn spec_identity(&self) -> crate::identity::IdentityView {
        self.identity@
    }

    /// The trust policy this worker applies to the peer.
    pub closed spec fn spec_policy(&self) -> TrustPolicyView {
        self.trust_policy@
    }

    /// The credential this worker presents, if any.
    pub closed spec fn spec_credential(&self) -> Option<CredentialView> {
        match self.credential {
            Some(c) => Some(c@),
            None => None,
        }
    }

    /// This worker's ephemeral secret.
    pub closed spec fn spec_secret(&self) -> u64 {
        self.secret
    }

    /// The channel-binding transcript, once the key exchange ran:
    /// initiator public value first.
    pub closed spec fn spec_transcript(&self) -> Option<(u64, u64)> {
        self.transcript
    }

    /// The negotiated shared secret, once the key exchange ran.
    pub closed spec fn spec_shared(&self) -> Option<u64> {
        self.shared
    }

    /// The peer identifier, once proven.
    pub closed spec fn spec_peer_identifier(&self) -> Option<Seq<char>> {
        match self.peer_identifier {
            Some(ref s) => Some(s@),
            None => None,
        }
    }

    /// The credential the peer presented, once its proof arrived.
    pub closed spec fn spec_peer_credential(&self) -> Option<CredentialView> {
        match self.peer_credential {
            Some(ref c) => Some(c@),
            None => None,
        }
    }

    /// The flow this worker's channel produces into.
    pub closed spec fn spec_flow_control_id(&self) -> FlowControlId {
        self.flow_control_id
    }

    /// An initiator about to open a channel: it emits the first message
    /// at once and awaits the responder's answer.
    pub fn create_initiator(
        identity: Identity,
        trust_policy: TrustPolicy,
        credential: Option<Credential>,
        secret: u64,
        addresses: ChannelAddresses,
        flow_control_id: FlowControlId,
    ) -> (r: (HandshakeWorker, Message1))
        ensures
            r.0.spec_role() == Role::Initiator,
            r.0.spec_state() == HandshakeState::KeyExchangeInProgress,
            r.0.spec_identity() == identity@,
            r.0.spec_policy() == trust_policy@,
            r.0.spec_secret() == secret,
            r.0.spec_credential() == (match credential {
                Some(ref c) => Some(c@),
                None => None::<CredentialView>,
            }),
            r.0.spec_flow_control_id() == flow_control_id,
            r.1.public_key == kex_public(secret),
    {
        let m1 = Message1 { public_key: kex_public_exec(secret) };
        let worker = HandshakeWorker {
            role: Role::Initiator,
            state: HandshakeState::KeyExchangeInProgress,
            identity,
            trust_policy,
            credential,
            secret,
            transcript: None,
            shared: None,
            peer_identifier: None,
            peer_credential: None,
            addresses,
            flow_control_id,
        };
        (worker, m1)
    }

    /// A responder spawned by a listener for one incoming handshake.
    pub fn create_responder(
        identity: Identity,
        trust_policy: TrustPolicy,
        credential: Option<Credential>,
        secret: u64,
        addresses: ChannelAddresses,
        flow_control_id: FlowControlId,
    ) -> (r: HandshakeWorker)
        ensures
            r.spec_role() == Role::Responder,
            r.spec_state() == HandshakeState::AwaitingHandshake,
            r.spec_identity() == identity@,
            r.spec_policy() == trust_policy@,
            r.spec_secret() == secret,
            r.spec_credential() == (match credential {
                Some(ref c) => Some(c@),
                None => None::<CredentialView>,
            }),
            r.spec_flow_control_id() == flow_control_id,
    {
        HandshakeWorker {
            role: Role::Responder,
            state: HandshakeState::AwaitingHandshake,
            identity,
            trust_policy,
            credential,
            secret,
            transcript: None,
            shared: None,
            peer_identifier: None,
            peer_credential: None,
            addresses,
            flow_control_id,
        }
    }

    /// The identity proof of this worker over its transcript.
    fn make_identity_proof(&self) -> (r: IdentityProof)
        requires
            self.spec_transcript() is Some,
        ensures
            r.identifier@ == self.spec_identity().identifier,
            r.public_key == self.spec_identity().key,
            r.signature == signature_of(
                self.spec_identity().key,
                self.spec_transcript()->Some_0.0,
                self.spec_transcript()->Some_0.1,
            ),
            proof_credential(&r) == self.spec_credential(),
    {
        let (ta, tb) = match self.transcript {
            Some(t) => t,
            None => {
                proof {
                    assert(false);
                }
                (0, 0)
            },
        };
        let credential = match &self.credential {
            Some(c) => Some(c.clone()),
            None => None,
        };
        IdentityProof {
            identifier: String::from_str(self.identity.identifier()),
            public_key: self.identity.key(),
            signature: self.identity.sign(ta, tb),
            credential,
        }
    }

    /// The responder's step on the first message: run the key exchange,
    /// fix the transcript, and answer with its own value and proof.
    pub fn on_message1(&mut self, m1: &Message1) -> (r: Message2)
        requires
            old(self).spec_role() == Role::Responder,
            old(self).spec_state() == HandshakeState::AwaitingHandshake,
        ensures
            final(self).spec_state() == HandshakeState::AwaitingIdentityProof,
            final(self).spec_transcript() == Some((m1.public_key, kex_public(old(self).spec_secret()))),
            final(self).spec_shared() == Some(shared_secret(old(self).spec_secret(), m1.public_key)),
            final(self).spec_role() == old(self).spec_role(),
            final(self).spec_identity() == old(self).spec_identity(),
            final(self).spec_policy() == old(self).spec_policy(),
            final(self).spec_secret() == old(self).spec_secret(),
            final(self).spec_flow_control_id() == old(self).spec_flow_control_id(),
            r.public_key == kex_public(old(self).spec_secret()),
            r.proof.identifier@ == old(self).spec_identity().identifier,
            r.proof.public_key == old(self).spec_identity().key,
            r.proof.signature == signature_of(
                old(self).spec_identity().key,
                m1.public_key,
                kex_public(old(self).spec_secret()),
            ),
            proof_credential(&r.proof) == old(self).spec_credential(),
    {
        let own_public = kex_public_exec(self.secret);
        self.transcript = Some((m1.public_key, own_public));
        self.shared = Some(shared_secret_exec(self.secret, m1.public_key));
        self.state = HandshakeState::AwaitingIdentityProof;
        let proof = self.make_identity_proof();
        Message2 { public_key: own_public, proof }
    }

    /// The initiator's step completing the key exchange once the
    /// responder's value arrives.
    pub fn complete_key_exchange(&mut self, peer_public: u64)
        requires
            old(self).spec_role() == Role::Initiator,
            old(self).spec_state() == HandshakeState::KeyExchangeInProgress,
        ensures
            final(self).spec_state() == HandshakeState::AwaitingIdentityProof,
            final(self).spec_transcript() == Some((kex_public(old(self).spec_secret()), peer_public)),
            final(self).spec_shared() == Some(shared_secret(old(self).spec_secret(), peer_public)),
            final(self).spec_role() == old(self).spec_role(),
            final(self).spec_identity() == old(self).spec_identity(),
            final(self).spec_policy() == old(self).spec_policy(),
            final(self).spec_secret() == old(self).spec_secret(),
            final(self).spec_credential() == old(self).spec_credential(),
            final(self).spec_flow_control_id() == old(self).spec_flow_control_id(),
    {
        let own_public = kex_public_exec(self.secret);
        self.transcript = Some((own_public, peer_public));
        self.shared = Some(shared_secret_exec(self.secret, peer_public));
        self.state = HandshakeState::AwaitingIdentityProof;
    }

    /// Check the peer's identity proof against the transcript.  A bad
    /// signature is fatal to this attempt — a cryptographic failure,
    /// never a trust decision.
    pub fn verify_peer_proof(&mut self, proof: &IdentityProof) -> (r: Result<(), HandshakeError>)
        requires
            old(self).spec_state() == HandshakeState::AwaitingIdentityProof,
            old(self).spec_transcript() is Some,
        ensures
            ({
                let t = old(self).spec_transcript()->Some_0;
                if proof.signature == signature_of(proof.public_key, t.0, t.1) {
                    &&& r is Ok
                    &&& final(self).spec_state() == HandshakeState::AwaitingTrustDecision
                    &&& final(self).spec_peer_identifier() == Some(proof.identifier@)
                    &&& final(self).spec_peer_credential() == proof_credential(proof)
                } else {
                    &&& r == Result::<(), HandshakeError>::Err(HandshakeError::CryptoFailure)
                    &&& final(self).spec_state() == HandshakeState::Failed(HandshakeError::CryptoFailure)
                }
            }),
            final(self).spec_role() == old(self).spec_role(),
            final(self).spec_identity() == old(self).spec_identity(),
            final(self).spec_policy() == old(self).spec_policy(),
            final(self).spec_secret() == old(self).spec_secret(),
            final(self).spec_credential() == old(self).spec_credential(),
            final(self).spec_transcript() == old(self).spec_transcript(),
            final(self).spec_shared() == old(self).spec_shared(),
            final(self).spec_flow_control_id() == old(self).spec_flow_control_id(),
    {
        let (ta, tb) = match self.transcript {
            Some(t) => t,
            None => {
                proof {
                    assert(false);
                }
                (0, 0)
            },
        };
        if crate::identity::verify(proof.public_key, proof.signature, ta, tb) {
            self.peer_identifier = Some(String::from_str(proof.identifier.as_str()));
            self.peer_credential = match &proof.credential {
                Some(c) => Some(c.clone()),
                None => None,
            };
            self.state = HandshakeState::AwaitingTrustDecision;
            Ok(())
        } else {
            self.state = HandshakeState::Failed(HandshakeError::CryptoFailure);
            Err(HandshakeError::CryptoFailure)
        }
    }

    /// Rule on the proven peer identity under this worker's trust
    /// policy.  A rejection here is a trust failure, distinct from a
    /// cryptographic one.
    pub fn decide_trust(&mut self) -> (r: Result<(), HandshakeError>)
        requires
            old(self).spec_state() == HandshakeState::AwaitingTrustDecision,
            old(self).spec_peer_identifier() is Some,
        ensures
            ({
                let peer = old(self).spec_peer_identifier()->Some_0;
                if policy_accepts(old(self).spec_policy(), peer, old(self).spec_peer_credential()) {
                    &&& r is Ok
                    &&& final(self).spec_state() == HandshakeState::Established
                } else {
                    &&& r == Result::<(), HandshakeError>::Err(HandshakeError::TrustRejected)
                    &&& final(self).spec_state() == HandshakeState::Failed(HandshakeError::TrustRejected)
                }
            }),
            final(self).spec_role() == old(self).spec_role(),
            final(self).spec_identity() == old(self).spec_identity(),
            final(self).spec_policy() == old(self).spec_policy(),
            final(self).spec_secret() == old(self).spec_secret(),
            final(self).spec_credential() == old(self).spec_credential(),
            final(self).spec_transcript() == old(self).spec_transcript(),
            final(self).spec_shared() == old(self).spec_shared(),
            final(self).spec_peer_identifier() == old(self).spec_peer_identifier(),
            final(self).spec_peer_credential() == old(self).spec_peer_credential(),
            final(self).spec_flow_control_id() == old(self).spec_flow_control_id(),
    {
        let peer = match &self.peer_identifier {
            Some(p) => p.as_str(),
            None => {
                proof {
                    assert(false);
                }
                ""
            },
        };
        let accepted = self.trust_policy.evaluate(peer, self.peer_credential.as_ref());
        if accepted {
            self.state = HandshakeState::Established;
            Ok(())
        } else {
            self.state = HandshakeState::Failed(HandshakeError::TrustRejected);
            Err(HandshakeError::TrustRejected)
        }
    }

    /// The initiator's step on the second message: complete the key
    /// exchange, check the responder's proof, rule on trust, and — on
    /// success — answer with the initiator's own proof.
    pub fn on_message2(&mut self, m2: &Message2) -> (r: Result<Message3, HandshakeError>)
        requires
            old(self).spec_role() == Role::Initiator,
            old(self).spec_state() == HandshakeState::KeyExchangeInProgress,
        ensures
            ({
                let ta = kex_public(old(self).spec_secret());
                let tb = m2.public_key;
                if m2.proof.signature != signature_of(m2.proof.public_key, ta, tb) {
                    &&& r == Result::<Message3, HandshakeError>::Err(HandshakeError::CryptoFailure)
                    &&& final(self).spec_state() == HandshakeState::Failed(HandshakeError::CryptoFailure)
                } else if !policy_accepts(old(self).spec_policy(), m2.proof.identifier@, proof_credential(&m2.proof)) {
                    &&& r == Result::<Message3, HandshakeError>::Err(HandshakeError::TrustRejected)
                    &&& final(self).spec_state() == HandshakeState::Failed(HandshakeError::TrustRejected)
                } else {
                    &&& final(self).spec_state() == HandshakeState::Established
                    &&& final(self).spec_shared() == Some(shared_secret(old(self).spec_secret(), m2.public_key))
                    &&& final(self).spec_peer_identifier() == Some(m2.proof.identifier@)
                    &&& r matches Ok(m3) && m3.proof.identifier@ == old(self).spec_identity().identifier
                        && m3.proof.public_key == old(self).spec_identity().key
                        && m3.proof.signature == signature_of(old(self).spec_identity().key, ta, tb)
                        && proof_credential(&m3.proof) == old(self).spec_credential()
                }
            }),
            final(self).spec_role() == old(self).spec_role(),
            final(self).spec_identity() == old(self).spec_identity(),
            final(self).spec_secret() == old(self).spec_secret(),
            final(self).spec_flow_control_id() == old(self).spec_flow_control_id(),
    {
        self.complete_key_exchange(m2.public_key);
        match self.verify_peer_proof(&m2.proof) {
            Ok(_) => {},
            Err(e) => {
                return Err(e);
            },
        }
        match self.decide_trust() {
            Ok(_) => {},
            Err(e) => {
                return Err(e);
            },
        }
        Ok(Message3 { proof: self.make_identity_proof() })
    }

    /// The responder's step on the third message: check the initiator's
    /// proof and rule on trust.
    pub fn on_message3(&mut self, m3: &Message3) -> (r: Result<(), HandshakeError>)
        requires
            old(self).spec_role() == Role::Responder,
            old(self).spec_state() == HandshakeState::AwaitingIdentityProof,
            old(self).spec_transcript() is Some,
        ensures
            ({
                let t = old(self).spec_transcript()->Some_0;
                if m3.proof.signature != signature_of(m3.proof.public_key, t.0, t.1) {
                    &&& r == Result::<(), HandshakeError>::Err(HandshakeError::CryptoFailure)
                    &&& final(self).spec_state() == HandshakeState::Failed(HandshakeError::CryptoFailure)
                } else if !policy_accepts(old(self).spec_policy(), m3.proof.identifier@, proof_credential(&m3.proof)) {
                    &&& r == Result::<(), HandshakeError>::Err(HandshakeError::TrustRejected)
                    &&& final(self).spec_state() == HandshakeState::Failed(HandshakeError::TrustRejected)
                } else {
                    &&& r is Ok
                    &&& final(self).spec_state() == HandshakeState::Established
                    &&& final(self).spec_peer_identifier() == Some(m3.proof.identifier@)
                }
            }),
            final(self).spec_role() == old(self).spec_role(),
            final(self).spec_identity() == old(self).spec_identity(),
            final(self).spec_secret() == old(self).spec_secret(),
            final(self).spec_shared() == old(self).spec_shared(),
            final(self).spec_flow_control_id() == old(self).spec_flow_control_id(),
    {
        match self.verify_peer_proof(&m3.proof) {
            Ok(_) => {},
            Err(e) => {
                return Err(e);
            },
        }
        match self.decide_trust() {
            Ok(_) => {},
            Err(e) => {
                return Err(e);
            },
        }
        Ok(())
    }

    /// Hand the negotiated keys to a fresh Encryptor/Decryptor pair and
    /// discard this worker — possible only once the handshake is
    /// established, never after a failure.
    pub fn finalize(self) -> (r: SecureChannel)
        requires
            self.spec_state() == HandshakeState::Established,
            self.spec_shared() is Some,
        ensures
            ({
                let shared = self.spec_shared()->Some_0;
                if self.spec_role() == Role::Initiator {
                    r.encryptor.key() == key_i2r(shared) && r.decryptor.key() == key_r2i(shared)
                } else {
                    r.encryptor.key() == key_r2i(shared) && r.decryptor.key() == key_i2r(shared)
                }
            }),
            r.encryptor.nonce() == 0,
            r.decryptor.nonce() == 0,
            r.flow_control_id == self.spec_flow_control_id(),
    {
        let shared = match self.shared {
            Some(s) => s,
            None => {
                proof {
                    assert(false);
                }
                0
            },
        };
        let (enc_key, dec_key) = match self.role {
            Role::Initiator => (shared ^ DIR_I2R, shared ^ DIR_R2I),
            Role::Responder => (shared ^ DIR_R2I, shared ^ DIR_I2R),
        };
        SecureChannel {
            encryptor: Encryptor::new(enc_key),
            decryptor: Decryptor::new(dec_key),
            addresses: self.addresses,
            flow_control_id: self.flow_control_id,
        }
    }
}

/// What a listener applies to each incoming handshake: the trust policy,
/// the credential to present, and the spawner flow it owns.
pub struct SecureChannelListenerOptions {
    trust_policy: TrustPolicy,
    credential: Option<Credential>,
    flow_control_id: FlowControlId,
}

impl SecureChannelListenerOptions {
    /// The spawner flow this listener owns.
    pub closed spec fn spec_flow_control_id(&self) -> FlowControlId {
        self.flow_control_id
    }

    /// The trust policy applied to each incoming handshake.
    pub closed spec fn spec_policy(&self) -> TrustPolicyView {
        self.trust_policy@
    }

    /// The credential presented on each incoming handshake, if any.
    pub closed spec fn spec_credential(&self) -> Option<CredentialView> {
        match self.credential {
            Some(ref c) => Some(c@),
            None => None,
        }
    }

    /// The spawner flow this listener owns.
    pub fn flow_control_id(&self) -> (r: FlowControlId)
        ensures
            r == self.spec_flow_control_id(),
    {
        self.flow_control_id
    }

    /// Options with a freshly issued spawner flow.
    pub fn new(flow_controls: &mut FlowControls, trust_policy: TrustPolicy, credential: Option<Credential>) -> (r: Self)
        requires
            old(flow_controls).issued() < u64::MAX,
        ensures
            r.spec_flow_control_id()@ == old(flow_controls).issued(),
            r.spec_policy() == trust_policy@,
            final(flow_controls).issued() == old(flow_controls).issued() + 1,
            FlowControls::same_registrations(old(flow_controls), final(flow_controls)),
    {
        let id = flow_controls.generate_flow_control_id();
        SecureChannelListenerOptions { trust_policy, credential, flow_control_id: id }
    }

    /// The outgoing access control handed to a new channel's decryptor:
    /// its plaintext may reach only consumers of the channel's own flow,
    /// or of the listener's spawner flow.
    pub fn create_decryptor_outgoing_access_control(
        &self,
        channel_flow: &FlowControlId,
    ) -> (r: crate::mailbox::OutgoingAccessControl)
        ensures
            r == (crate::mailbox::OutgoingAccessControl::FlowControlOutgoing {
                flow_control_id: *channel_flow,
                spawner_flow_control_id: Some(self.spec_flow_control_id()),
            }),
    {
        crate::mailbox::OutgoingAccessControl::FlowControlOutgoing {
            flow_control_id: *channel_flow,
            spawner_flow_control_id: Some(self.flow_control_id),
        }
    }

    /// Register the listener itself as the spawner of its flow.
    pub fn setup_flow_control_for_listener(&self, flow_controls: &mut FlowControls, address: &Address)
        ensures
            old(flow_controls).spawner_of_addr(address@) is None
                ==> final(flow_controls).spawner_of_addr(address@) == Some(self.spec_flow_control_id()@),
            forall|x: crate::address::AddressView| x != address@
                ==> final(flow_controls).spawner_of_addr(x) == old(flow_controls).spawner_of_addr(x),
            forall|x: crate::address::AddressView| final(flow_controls).producer_of_addr(x)
                == old(flow_controls).producer_of_addr(x),
            forall|x: crate::address::AddressView, id: u64| final(flow_controls).consumer_registered(x, id)
                == old(flow_controls).consumer_registered(x, id),
    {
        flow_controls.add_spawner(address, &self.flow_control_id);
    }
}

/// The long-lived worker accepting incoming handshakes: each one gets a
/// fresh [`HandshakeWorker`], fresh addresses and a fresh flow; the
/// listener itself is untouched and keeps listening.
pub struct SecureChannelListenerWorker {
    identity: Identity,
    options: SecureChannelListenerOptions,
}

impl SecureChannelListenerWorker {
    /// The identity this listener's channels prove.
    pub closed spec fn spec_identity(&self) -> crate::identity::IdentityView {
        self.identity@
    }

    /// The trust policy this listener's channels apply.
    pub closed spec fn spec_policy(&self) -> TrustPolicyView {
        self.options.trust_policy@
    }

    fn new(identity: Identity, options: SecureChannelListenerOptions) -> (r: Self)
        ensures
            r.spec_identity() == identity@,
            r.options == options,
    {
        SecureChannelListenerWorker { identity, options }
    }

    /// Start a listener at `address`: register its spawner flow and hand
    /// the worker back, ready to accept handshakes.
    pub fn create(
        flow_controls: &mut FlowControls,
        identity: Identity,
        address: &Address,
        options: SecureChannelListenerOptions,
    ) -> (r: Self)
        ensures
            r.spec_identity() == identity@,
            r.spec_policy() == options.spec_policy(),
            old(flow_controls).spawner_of_addr(address@) is None
                ==> final(flow_controls).spawner_of_addr(address@) == Some(options.spec_flow_control_id()@),
    {
        options.setup_flow_control_for_listener(flow_controls, address);
        Self::new(identity, options)
    }

    /// Accept one incoming handshake: spawn a fresh responder worker
    /// with fresh addresses and a fresh flow, register its decryptor as
    /// the flow's producer, and redirect the triggering message into the
    /// new worker.  The listener itself is unchanged and keeps servicing
    /// further attempts; only this one attempt can fail.
    pub fn handle_message(
        &self,
        flow_controls: &mut FlowControls,
        message: LocalMessage,
        responder_secret: u64,
    ) -> (r: Result<(HandshakeWorker, LocalMessage), RouteError>)
        requires
            old(flow_controls).issued() < u64::MAX,
        ensures
            message@.onward.len() == 0 ==> (r matches Err(e) && e == RouteError::IncompleteRoute
                && FlowControls::same_registrations(old(flow_controls), final(flow_controls))
                && final(flow_controls).issued() == old(flow_controls).issued()),
            message@.onward.len() > 0 ==> final(flow_controls).issued() == old(flow_controls).issued() + 1,
            message@.onward.len() > 0 ==> (r matches Ok((worker, forwarded)) && {
                &&& worker.spec_role() == Role::Responder
                &&& worker.spec_state() == HandshakeState::AwaitingHandshake
                &&& worker.spec_identity() == self.spec_identity()
                &&& worker.spec_policy() == self.spec_policy()
                &&& worker.spec_secret() == responder_secret
                &&& worker.spec_flow_control_id()@ == old(flow_controls).issued()
                &&& forwarded@.ret == message@.ret
                &&& forwarded@.payload == message@.payload
                &&& forwarded@.onward.len() == message@.onward.len()
                &&& forwarded@.onward.subrange(1, forwarded@.onward.len() as int)
                    == message@.onward.subrange(1, message@.onward.len() as int)
                &&& final(flow_controls).producer_of_addr(forwarded@.onward[0]) is Some
            }),
    {
        if message.onward_route().is_empty() {
            return Err(RouteError::IncompleteRoute);
        }
        let addresses = ChannelAddresses::generate();
        let channel_flow = flow_controls.generate_flow_control_id();
        let consumers: Vec<Address> = Vec::new();
        flow_controls.add_producer(
            &addresses.decryptor_remote,
            &channel_flow,
            Some(&self.options.flow_control_id),
            &consumers,
        );
        let credential = match &self.options.credential {
            Some(c) => Some(c.clone()),
            None => None,
        };
        let identity = Identity::new(self.identity.identifier(), self.identity.key());
        let decryptor_remote = addresses.decryptor_remote.clone();
        let worker = HandshakeWorker::create_responder(
            identity,
            self.options.trust_policy.clone(),
            credential,
            responder_secret,
            addresses,
            channel_flow,
        );
        let forwarded = match message.replace_front_onward_route(&decryptor_remote) {
            Ok(m) => m,
            Err(e) => {
                return Err(e);
            },
        };
        Ok((worker, forwarded))
    }
}

/// Drive one complete handshake between an initiator and a freshly
/// spawned responder, yielding the two channel halves on success.
///
/// Success is owed exactly when both trust policies accept the proven
/// peer: the signatures exchanged here are honest, so a failure is
/// always a trust rejection, the responder's policy ruling first.  On
/// success the four session keys pair up: what the initiator encrypts
/// with, the responder decrypts with, and the other way round.
pub fn run_handshake(
    initiator_identity: Identity,
    initiator_policy: TrustPolicy,
    initiator_credential: Option<Credential>,
    initiator_secret: u64,
    initiator_addresses: ChannelAddresses,
    initiator_flow: FlowControlId,
    responder: HandshakeWorker,
) -> (r: Result<(SecureChannel, SecureChannel), HandshakeError>)
    requires
        responder.spec_role() == Role::Responder,
        responder.spec_state() == HandshakeState::AwaitingHandshake,
    ensures
        ({
            let shared = shared_secret(initiator_secret, kex_public(responder.spec_secret()));
            let initiator_accepts = policy_accepts(
                initiator_policy@,
                responder.spec_identity().identifier,
                responder.spec_credential(),
            );
            let responder_accepts = policy_accepts(
                responder.spec_policy(),
                initiator_identity@.identifier,
                match initiator_credential {
                    Some(ref c) => Some(c@),
                    None => None,
                },
            );
            if initiator_accepts && responder_accepts {
                &&& r matches Ok(pair)
                &&& pair.0.encryptor.key() == key_i2r(shared)
                &&& pair.0.decryptor.key() == key_r2i(shared)
                &&& pair.1.encryptor.key() == key_r2i(shared)
                &&& pair.1.decryptor.key() == key_i2r(shared)
                &&& pair.0.encryptor.key() == pair.1.decryptor.key()
                &&& pair.1.encryptor.key() == pair.0.decryptor.key()
                &&& pair.0.encryptor.nonce() == 0 && pair.0.decryptor.nonce() == 0
                &&& pair.1.encryptor.nonce() == 0 && pair.1.decryptor.nonce() == 0
            } else {
                r == Result::<(SecureChannel, SecureChannel), HandshakeError>::Err(HandshakeError::TrustRejected)
            }
        }),
{
    let mut responder = responder;
    let (mut initiator, m1) = HandshakeWorker::create_initiator(
        initiator_identity,
        initiator_policy,
        initiator_credential,
        initiator_secret,
        initiator_addresses,
        initiator_flow,
    );
    let m2 = responder.on_message1(&m1);
    proof {
        lemma_shared_secret_symmetric(initiator.spec_secret(), responder.spec_secret());
    }
    let m3 = match initiator.on_message2(&m2) {
        Ok(m3) => m3,
        Err(e) => {
            return Err(e);
        },
    };
    match responder.on_message3(&m3) {
        Ok(_) => {},
        Err(e) => {
            return Err(e);
        },
    }
    Ok((initiator.finalize(), responder.finalize()))
}

} // verus!
