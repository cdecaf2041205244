use boringtun::secure_mem::{SecretStore, SECRET_LEN};

#[test]
fn round_trips_the_secret_through_secure_memory() {
    let secret = [7u8; SECRET_LEN];
    let store = SecretStore::new(&secret);
    // The stored bytes read back identically through the guarded read window.
    store.with_bytes(|b| assert_eq!(b, &secret));
    // And again — the window can be opened repeatedly.
    store.with_bytes(|b| assert_eq!(b, &secret));
}

#[test]
fn distinct_secrets_are_independent() {
    let a = SecretStore::new(&[1u8; SECRET_LEN]);
    let b = SecretStore::new(&[2u8; SECRET_LEN]);
    a.with_bytes(|x| assert_eq!(x[0], 1));
    b.with_bytes(|x| assert_eq!(x[0], 2));
}

#[test]
fn with_bytes_returns_what_the_closure_returns() {
    let mut secret = [0u8; SECRET_LEN];
    secret[31] = 200;
    let store = SecretStore::new(&secret);
    assert_eq!(store.with_bytes(|b| b[31]), 200);
    assert_eq!(store.with_bytes(|b| b.to_vec()), secret.to_vec());
}

#[test]
fn the_store_keeps_its_own_copy() {
    let mut secret = [9u8; SECRET_LEN];
    let store = SecretStore::new(&secret);
    secret[0] = 0;
    assert_eq!(secret[0], 0);
    assert_eq!(store.with_bytes(|b| b[0]), 9);
}

#[test]
fn a_secret_has_the_length_of_an_x25519_scalar() {
    assert_eq!(SECRET_LEN, 32);
}

#[test]
fn a_nested_use_leaves_the_outer_one_its_secret() {
    let store = SecretStore::new(&[8u8; SECRET_LEN]);
    let first = store.with_bytes(|outer| {
        store.with_bytes(|_| ());
        outer[0]
    });
    assert_eq!(first, 8);
}
