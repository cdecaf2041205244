//! The static-key Diffie-Hellman seam: who performs the handshake's only operation with the static
//! private key.
use vstd::prelude::*;

use crate::secure_mem::SecretStore;
use crate::x25519;
use crate::x25519::Key;

verus! {

/// Performs Diffie-Hellman with a static private key that the caller does not hold.
pub trait StaticKeyAgent: Send + Sync {
    /// `DH(static_private, peer_public)`.
    fn diffie_hellman(&self, peer_public: &Key) -> Key;

    /// The static public key.
    fn public_key(&self) -> Key;
}

/// The shared secret of the key with the bytes `secret` and the other side's public key.
pub fn agree(secret: &Key, peer_public: &Key) -> (shared: Key)
    ensures
        shared@ == x25519::x25519_shared(secret@, peer_public@),
{
    x25519::diffie_hellman(secret, peer_public)
}

/// The public key that belongs to the key with the bytes `secret`.
pub fn public_of(secret: &Key) -> (public: Key)
    ensures
        public@ == x25519::x25519_public(secret@),
        x25519::is_key_pair(secret@, public@),
{
    x25519::public_key(secret)
}

/// A [`StaticKeyAgent`] that holds the static private key itself, in a [`SecretStore`] on the heap.
pub struct KeyAgent {
    store: SecretStore,
    public: Key,
}

impl KeyAgent {
    /// The static private key.
    pub closed spec fn secret(&self) -> Seq<u8> {
        self.store@@
    }

    /// The static public key.
    pub closed spec fn public(&self) -> Seq<u8> {
        self.public@
    }

    /// Whether the two keys belong together.
    pub open spec fn wf(&self) -> bool {
        &&& self.public() == x25519::x25519_public(self.secret())
        &&& x25519::is_key_pair(self.secret(), self.public())
    }
}

impl StaticKeyAgent for KeyAgent {
    fn diffie_hellman(&self, peer_public: &Key) -> (shared: Key)
        ensures
            shared@ == x25519::x25519_shared(self.secret(), peer_public@),
    {
        let dh = |secret: &Key| -> (shared: Key)
            ensures
                shared@ == x25519::x25519_shared(secret@, peer_public@),
            { agree(secret, peer_public) };
        self.store.with_bytes(dh)
    }

    fn public_key(&self) -> (public: Key)
        ensures
            public@ == self.public(),
    {
        self.public
    }
}

/// An agent that holds `secret` in a [`SecretStore`]: on the heap, on every platform, and wiped when
/// the agent goes away. Where the system can protect single pages, the application has an agent of
/// its own that holds the key in a [`GuardedPage`](crate::guarded_page::GuardedPage) and performs the
/// same operations, [`agree`] and [`public_of`], on it.
pub fn default_agent(secret: &Key) -> (agent: KeyAgent)
    ensures
        agent.secret() == secret@,
        agent.public() == x25519::x25519_public(secret@),
        agent.wf(),
{
    KeyAgent { store: SecretStore::new(secret), public: public_of(secret) }
}

/// What an agent does is what its key does: its shared secrets and its public key are those of the
/// bytes that it was made from.
pub proof fn agent_acts_for_its_key(
    secret: Key,
    agent: KeyAgent,
    peer_public: Key,
    shared: Key,
    public: Key,
)
    requires
        call_ensures(default_agent, (&secret,), agent),
        call_ensures(KeyAgent::diffie_hellman, (&agent, &peer_public), shared),
        call_ensures(KeyAgent::public_key, (&agent,), public),
    ensures
        shared@ == x25519::x25519_shared(secret@, peer_public@),
        public@ == x25519::x25519_public(secret@),
{
}

/// Two agents agree: each arrives at the same shared secret with the other's public key.
pub proof fn agents_agree(
    one: Key,
    other: Key,
    agent_one: KeyAgent,
    agent_other: KeyAgent,
    public_one: Key,
    public_other: Key,
    shared_one: Key,
    shared_other: Key,
)
    requires
        call_ensures(default_agent, (&one,), agent_one),
        call_ensures(default_agent, (&other,), agent_other),
        call_ensures(KeyAgent::public_key, (&agent_one,), public_one),
        call_ensures(KeyAgent::public_key, (&agent_other,), public_other),
        call_ensures(KeyAgent::diffie_hellman, (&agent_one, &public_other), shared_one),
        call_ensures(KeyAgent::diffie_hellman, (&agent_other, &public_one), shared_other),
    ensures
        shared_one == shared_other,
{
    agent_acts_for_its_key(one, agent_one, public_other, shared_one, public_one);
    agent_acts_for_its_key(other, agent_other, public_one, shared_other, public_other);
    assert(x25519::is_key_pair(one@, public_one@));
    assert(shared_one@ =~= shared_other@);
    assert(shared_one =~= shared_other);
}

/// Whoever performs the operations on the raw bytes gets what the agent gets.
pub proof fn agent_agrees_with_raw_operations(
    secret: Key,
    agent: KeyAgent,
    peer_public: Key,
    shared: Key,
    raw_shared: Key,
    public: Key,
    raw_public: Key,
)
    requires
        call_ensures(default_agent, (&secret,), agent),
        call_ensures(KeyAgent::diffie_hellman, (&agent, &peer_public), shared),
        call_ensures(agree, (&secret, &peer_public), raw_shared),
        call_ensures(KeyAgent::public_key, (&agent,), public),
        call_ensures(public_of, (&secret,), raw_public),
    ensures
        shared@ == raw_shared@,
        public@ == raw_public@,
{
}

} // verus!
