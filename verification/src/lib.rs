//! Key residency for a WireGuard endpoint: where the static private key lives, and who may use it.
//!
//! * [`secure_mem`]: a store for the key's bytes that wipes them when it goes away.
//! * [`guarded_page`]: the same for one page of memory under the system's protection, as the
//!   sequence of system calls that sets the page up, opens it for a read, and gives it back.
//! * [`kernel`]: what those calls do to a process, and what that means for the secret.
//! * [`agent`]: the static-key Diffie-Hellman seam.
//! * [`signer`]: the protocol by which a signer process performs the operation for a datapath that
//!   never holds the key.
//! * [`x25519`]: the x25519 types.
pub mod agent;
pub mod guarded_page;
pub mod kernel;
pub mod secure_mem;
pub mod signer;
pub mod x25519;

pub use agent::{default_agent, StaticKeyAgent};
