//! The x25519 types, and the two operations on raw key bytes that a static key takes part in.
use vstd::prelude::*;

pub use x25519_dalek::{EphemeralSecret, PublicKey, ReusableSecret, SharedSecret, StaticSecret};

verus! {

/// The bytes of a secret key, a public key or a shared secret.
pub type Key = [u8; 32];

/// The shared secret that [`StaticSecret::diffie_hellman`] computes from a secret key and the
/// public key of the other side.
pub uninterp spec fn x25519_shared(secret: Seq<u8>, peer_public: Seq<u8>) -> Seq<u8>;

/// The public key that [`PublicKey`] computes from a [`StaticSecret`].
pub uninterp spec fn x25519_public(secret: Seq<u8>) -> Seq<u8>;

/// Whether `public` belongs to `secret` in a Diffie-Hellman exchange: whoever holds another secret
/// and uses `public` gets the secret that the holder of `secret` gets with the other's public key.
pub open spec fn is_key_pair(secret: Seq<u8>, public: Seq<u8>) -> bool {
    forall|other: Seq<u8>|
        other.len() == 32 ==> #[trigger] x25519_shared(other, public) == x25519_shared(
            secret,
            x25519_public(other),
        )
}

/// Calls [`StaticSecret::diffie_hellman`] on the key with the bytes `secret` and the public key with
/// the bytes `peer_public`. The result depends on these bytes alone.
#[verifier::external_body]
pub(crate) fn diffie_hellman(secret: &Key, peer_public: &Key) -> (shared: Key)
    ensures
        shared@ == x25519_shared(secret@, peer_public@),
{
    StaticSecret::from(*secret).diffie_hellman(&PublicKey::from(*peer_public)).to_bytes()
}

/// Calls `PublicKey::from` on the [`StaticSecret`] with the bytes `secret`. The result depends on
/// these bytes alone, and the two sides of an exchange arrive at the same shared secret.
#[verifier::external_body]
pub(crate) fn public_key(secret: &Key) -> (public: Key)
    ensures
        public@ == x25519_public(secret@),
        is_key_pair(secret@, public@),
{
    PublicKey::from(&StaticSecret::from(*secret)).to_bytes()
}

} // verus!
