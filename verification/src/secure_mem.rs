//! Secure storage for a small long-lived secret: the static private key.
//!
//! A [`SecretStore`] holds the key's bytes in a box of their own and wipes them when it goes away.
//! It works on every platform, and has no protection but the wiping. Where the system can protect
//! single pages of memory, the application keeps the key in a
//! [`GuardedPage`](crate::guarded_page::GuardedPage) instead, which is readable only for the brief
//! window of a Diffie-Hellman operation.
use vstd::prelude::*;
use zeroize::Zeroize;

verus! {

/// The number of secret bytes stored (an x25519 scalar).
pub const SECRET_LEN: usize = 32;

/// Whether there is nothing but zeros in `bytes`.
pub open spec fn wiped(bytes: Seq<u8>) -> bool {
    forall|i: int| 0 <= i < bytes.len() ==> bytes[i] == 0
}

/// Calls `Zeroize::zeroize` on the array, which writes zero over each of its elements and does not
/// panic.
#[verifier::external_body]
fn zeroize(bytes: &mut [u8; SECRET_LEN])
    ensures
        wiped(final(bytes)@),
    opens_invariants none
    no_unwind
{
    bytes.zeroize();
}

/// A secret in a box on the heap, wiped on drop.
pub struct HeapSecret {
    bytes: Box<[u8; SECRET_LEN]>,
}

impl View for HeapSecret {
    type V = [u8; SECRET_LEN];

    closed spec fn view(&self) -> [u8; SECRET_LEN] {
        *self.bytes
    }
}

impl HeapSecret {
    /// Copies `bytes` into a box.
    fn new(bytes: &[u8; SECRET_LEN]) -> (secret: Self)
        ensures
            secret@ == *bytes,
    {
        HeapSecret { bytes: Box::new(*bytes) }
    }

    /// Runs `f` with the secret.
    fn with_bytes<R>(&self, f: impl FnOnce(&[u8; SECRET_LEN]) -> R) -> (out: R)
        requires
            call_requires(f, (&self@,)),
        ensures
            call_ensures(f, (&self@,), out),
    {
        f(&self.bytes)
    }
}

impl Drop for HeapSecret {
    /// Writes zeros over the secret.
    fn drop(&mut self)
        ensures
            wiped(final(self)@@),
        opens_invariants none
        no_unwind
    {
        zeroize(&mut self.bytes);
    }
}

/// A 32-byte secret on the heap, accessible only through [`SecretStore::with_bytes`].
pub struct SecretStore {
    inner: HeapSecret,
}

impl View for SecretStore {
    type V = [u8; SECRET_LEN];

    /// The secret.
    closed spec fn view(&self) -> [u8; SECRET_LEN] {
        self.inner@
    }
}

impl SecretStore {
    /// Takes `bytes` into the store. The caller's copy should be wiped afterwards.
    pub fn new(bytes: &[u8; SECRET_LEN]) -> (store: Self)
        ensures
            store@ == *bytes,
    {
        SecretStore { inner: HeapSecret::new(bytes) }
    }

    /// Runs `f` with the secret, and returns what `f` returns. The secret is the same each time.
    pub fn with_bytes<R>(&self, f: impl FnOnce(&[u8; SECRET_LEN]) -> R) -> (out: R)
        requires
            call_requires(f, (&self@,)),
        ensures
            call_ensures(f, (&self@,), out),
    {
        self.inner.with_bytes(f)
    }
}

/// A store gives back what it was made from: whatever is run with the secret is run with the bytes
/// that were taken in, however often.
pub proof fn store_gives_back_secret<R, F: FnOnce(&[u8; SECRET_LEN]) -> R>(
    bytes: [u8; SECRET_LEN],
    store: SecretStore,
    f: F,
    out: R,
)
    requires
        call_ensures(SecretStore::new, (&bytes,), store),
        call_ensures(SecretStore::with_bytes::<R>, (&store, f), out),
    ensures
        call_ensures(f, (&bytes,), out),
{
}

/// Nothing is left of a secret that was wiped: all secrets of one length are the same zeros then.
pub proof fn wiped_secrets_are_alike(one: Seq<u8>, other: Seq<u8>)
    requires
        wiped(one),
        wiped(other),
        one.len() == other.len(),
    ensures
        one == other,
        one == Seq::new(one.len(), |i: int| 0u8),
{
    assert(one =~= other);
    assert(one =~= Seq::new(one.len(), |i: int| 0u8));
}

} // verus!
