//! Identities, credentials and trust policies: the capability a secure
//! channel leans on to prove who is on the other side and to decide
//! whether to talk to them.
//!
//! The signing scheme is a model of the pluggable identity capability:
//! a deterministic function of the identity's key and the channel
//! transcript.  Trust policies are data, selected at construction time,
//! and their decisions are exact: a rejection here is a policy mismatch,
//! kept distinct from a cryptographic failure.

use vstd::prelude::*;
use vstd::string::StringExecFns;

verus! {

/// A party's long-term identity: its identifier and its identity key.
pub struct Identity {
    identifier: String,
    key: u64,
}

/// Mathematical model of an [`Identity`].
pub struct IdentityView {
    pub identifier: Seq<char>,
    pub key: u64,
}

impl View for Identity {
    type V = IdentityView;

    closed spec fn view(&self) -> IdentityView {
        IdentityView { identifier: self.identifier@, key: self.key }
    }
}

impl Identity {
    /// An identity under the given identifier, holding the given key.
    pub fn new(identifier: &str, key: u64) -> (r: Self)
        ensures
            r@.identifier == identifier@,
            r@.key == key,
    {
        Identity { identifier: String::from_str(identifier), key }
    }

    /// The identifier of this identity.
    pub fn identifier(&self) -> (r: &str)
        ensures
            r@ == self@.identifier,
    {
        self.identifier.as_str()
    }

    /// The identity key.
    pub fn key(&self) -> (r: u64)
        ensures
            r == self@.key,
    {
        self.key
    }

    /// Prove possession of this identity by signing a channel-binding
    /// transcript.
    pub fn sign(&self, transcript_a: u64, transcript_b: u64) -> (r: u64)
        ensures
            r == signature_of(self@.key, transcript_a, transcript_b),
    {
        signature_exec(self.key, transcript_a, transcript_b)
    }
}

/// The signature of the transcript `(a, b)` under `key` — the model of
/// the identity capability's signing function.
pub open spec fn signature_of(key: u64, a: u64, b: u64) -> u64 {
    key ^ a ^ !b
}

fn signature_exec(key: u64, a: u64, b: u64) -> (r: u64)
    ensures
        r == signature_of(key, a, b),
{
    key ^ a ^ !b
}

/// Check a signature over a transcript against a peer's claimed key —
/// the model of the identity capability's verification function.
pub fn verify(peer_key: u64, signature: u64, transcript_a: u64, transcript_b: u64) -> (r: bool)
    ensures
        r == (signature == signature_of(peer_key, transcript_a, transcript_b)),
{
    signature == signature_exec(peer_key, transcript_a, transcript_b)
}

/// A credential presented during a handshake: who vouches, and for whom.
pub struct Credential {
    issuer: String,
    subject: String,
}

/// Mathematical model of a [`Credential`].
pub struct CredentialView {
    pub issuer: Seq<char>,
    pub subject: Seq<char>,
}

impl View for Credential {
    type V = CredentialView;

    closed spec fn view(&self) -> CredentialView {
        CredentialView { issuer: self.issuer@, subject: self.subject@ }
    }
}

impl Credential {
    /// A credential by which `issuer` vouches for `subject`.
    pub fn new(issuer: &str, subject: &str) -> (r: Self)
        ensures
            r@.issuer == issuer@,
            r@.subject == subject@,
    {
        Credential { issuer: String::from_str(issuer), subject: String::from_str(subject) }
    }
}

impl Clone for Credential {
    fn clone(&self) -> (r: Self)
        ensures
            r@ == self@,
    {
        Credential { issuer: self.issuer.clone(), subject: self.subject.clone() }
    }
}

/// A trust policy: which proven peer identities a party will talk to.
pub enum TrustPolicy {
    /// Talk to anyone whose identity proof checks out.
    TrustEveryone,
    /// Talk only to the one given identifier.
    TrustIdentifier(String),
    /// Talk only to peers vouched for by the given authority, through a
    /// presented credential naming them.
    TrustAuthority(String),
}

/// Mathematical model of a [`TrustPolicy`].
pub enum TrustPolicyView {
    Everyone,
    Identifier(Seq<char>),
    Authority(Seq<char>),
}

impl View for TrustPolicy {
    type V = TrustPolicyView;

    closed spec fn view(&self) -> TrustPolicyView {
        match self {
            TrustPolicy::TrustEveryone => TrustPolicyView::Everyone,
            TrustPolicy::TrustIdentifier(id) => TrustPolicyView::Identifier(id@),
            TrustPolicy::TrustAuthority(a) => TrustPolicyView::Authority(a@),
        }
    }
}

/// Whether a policy accepts a proven peer identifier, given the
/// credential it presented, if any.
pub open spec fn policy_accepts(policy: TrustPolicyView, peer: Seq<char>, credential: Option<CredentialView>) -> bool {
    match policy {
        TrustPolicyView::Everyone => true,
        TrustPolicyView::Identifier(id) => peer == id,
        TrustPolicyView::Authority(authority) => match credential {
            Some(c) => c.issuer == authority && c.subject == peer,
            None => false,
        },
    }
}

impl Clone for TrustPolicy {
    fn clone(&self) -> (r: Self)
        ensures
            r@ == self@,
    {
        match self {
            TrustPolicy::TrustEveryone => TrustPolicy::TrustEveryone,
            TrustPolicy::TrustIdentifier(id) => TrustPolicy::TrustIdentifier(id.clone()),
            TrustPolicy::TrustAuthority(a) => TrustPolicy::TrustAuthority(a.clone()),
        }
    }
}

impl TrustPolicy {
    /// Whether this policy accepts a proven peer identifier, given the
    /// credential it presented, if any.
    pub open spec fn spec_accepts(&self, peer: Seq<char>, credential: Option<CredentialView>) -> bool {
        policy_accepts(self@, peer, credential)
    }

    /// Evaluate this policy against a proven peer identifier and the
    /// credential it presented, if any.
    pub fn evaluate(&self, peer: &str, credential: Option<&Credential>) -> (r: bool)
        ensures
            r == self.spec_accepts(peer@, match credential {
                Some(c) => Some(c@),
                None => None::<CredentialView>,
            }),
    {
        match self {
            TrustPolicy::TrustEveryone => true,
            TrustPolicy::TrustIdentifier(id) => {
                let peer_string = String::from_str(peer);
                let same = peer_string == *id;
                proof {
                    if same {
                        assert(peer@ =~= id@);
                    }
                }
                same
            },
            TrustPolicy::TrustAuthority(authority) => match credential {
                Some(c) => {
                    let issuer_ok = c.issuer == *authority;
                    let peer_string = String::from_str(peer);
                    let subject_ok = c.subject == peer_string;
                    proof {
                        if issuer_ok {
                            assert(c@.issuer =~= authority@);
                        }
                        if subject_ok {
                            assert(c@.subject =~= peer@);
                        }
                        if !issuer_ok {
                            assert(c@.issuer != authority@);
                        }
                        if !subject_ok {
                            assert(c@.subject != peer@);
                        }
                    }
                    issuer_ok && subject_ok
                },
                None => false,
            },
        }
    }
}

} // verus!
