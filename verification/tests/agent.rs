use boringtun::agent::{agree, default_agent, public_of, StaticKeyAgent};
use boringtun::x25519;
use rand_core::OsRng;

#[test]
fn agree_matches_a_published_vector() {
    let secret = [
        0xa5, 0x46, 0xe3, 0x6b, 0xf0, 0x52, 0x7c, 0x9d, 0x3b, 0x16, 0x15, 0x4b, 0x82, 0x46, 0x5e,
        0xdd, 0x62, 0x14, 0x4c, 0x0a, 0xc1, 0xfc, 0x5a, 0x18, 0x50, 0x6a, 0x22, 0x44, 0xba, 0x44,
        0x9a, 0xc4,
    ];
    let peer = [
        0xe6, 0xdb, 0x68, 0x67, 0x58, 0x30, 0x30, 0xdb, 0x35, 0x94, 0xc1, 0xa4, 0x24, 0xb1, 0x5f,
        0x7c, 0x72, 0x66, 0x24, 0xec, 0x26, 0xb3, 0x35, 0x3b, 0x10, 0xa9, 0x03, 0xa6, 0xd0, 0xab,
        0x1c, 0x4c,
    ];
    let shared = [
        0xc3, 0xda, 0x55, 0x37, 0x9d, 0xe9, 0xc6, 0x90, 0x8e, 0x94, 0xea, 0x4d, 0xf2, 0x8d, 0x08,
        0x4f, 0x32, 0xec, 0xcf, 0x03, 0x49, 0x1c, 0x71, 0xf7, 0x54, 0xb4, 0x07, 0x55, 0x77, 0xa2,
        0x85, 0x52,
    ];
    assert_eq!(agree(&secret, &peer), shared);
    assert_eq!(default_agent(&secret).diffie_hellman(&peer), shared);
}

#[test]
fn public_key_matches_a_published_vector() {
    let mut secret = [0u8; 32];
    secret[0] = 9;
    let public = [
        0x42, 0x2c, 0x8e, 0x7a, 0x62, 0x27, 0xd7, 0xbc, 0xa1, 0x35, 0x0b, 0x3e, 0x2b, 0xb7, 0x27,
        0x9f, 0x78, 0x97, 0xb8, 0x7b, 0xb6, 0x85, 0x4b, 0x78, 0x3c, 0x60, 0xe8, 0x03, 0x11, 0xae,
        0x30, 0x79,
    ];
    assert_eq!(public_of(&secret), public);
    assert_eq!(default_agent(&secret).public_key(), public);
}

#[test]
fn two_agents_arrive_at_the_same_secret() {
    let a = default_agent(&[0x11; 32]);
    let b = default_agent(&[0x22; 32]);
    let shared = a.diffie_hellman(&b.public_key());
    assert_eq!(shared, b.diffie_hellman(&a.public_key()));
    assert_ne!(shared, [0u8; 32]);
}

#[test]
fn an_agent_does_what_its_key_does() {
    let secret = x25519::StaticSecret::random_from_rng(OsRng);
    let peer = x25519::PublicKey::from(&x25519::StaticSecret::random_from_rng(OsRng));
    let agent = default_agent(&secret.to_bytes());
    assert_eq!(agent.public_key(), x25519::PublicKey::from(&secret).to_bytes());
    assert_eq!(
        agent.diffie_hellman(&peer.to_bytes()),
        secret.diffie_hellman(&peer).to_bytes()
    );
    // The key can be used again.
    assert_eq!(
        agent.diffie_hellman(&peer.to_bytes()),
        secret.diffie_hellman(&peer).to_bytes()
    );
}
