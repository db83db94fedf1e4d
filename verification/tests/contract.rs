//! The one-shot entry points, the reset path, and the error taxonomy of the
//! reference algorithm.

use mac_core::fold_mac::FoldMac;
use mac_core::MacError;
use mac_core::MacFn;

#[test]
fn mac_is_deterministic() {
    let first = FoldMac::mac(b"key", b"hello world");
    let second = FoldMac::mac(b"key", b"hello world");
    assert_eq!(first, second);
}

#[test]
fn known_tags() {
    assert_eq!(FoldMac::mac(b"key", b"a"), [13, 253, 239, 183]);
    assert_eq!(FoldMac::mac(b"secret", b"abc"), [87, 252, 227, 29]);
}

#[test]
fn different_messages_give_different_tags() {
    // Not a guarantee of the contract, but a sanity check that the fold
    // actually depends on the message.
    assert_ne!(
        FoldMac::mac(b"key", b"hello world"),
        FoldMac::mac(b"key", b"hello worle")
    );
}

#[test]
fn different_secrets_give_different_tags() {
    assert_ne!(
        FoldMac::mac(b"key", b"hello world"),
        FoldMac::mac(b"yek", b"hello world")
    );
}

#[test]
fn finalize_reset_produces_the_tag_and_allows_reuse() {
    let mut state = FoldMac::new(b"key");
    state.update(b"hello world");
    let first = state.finalize_reset();
    assert_eq!(first, FoldMac::mac(b"key", b"hello world"));

    // After the reset the state behaves exactly like a fresh one.
    state.update(b"second message");
    let second = state.finalize();
    assert_eq!(second, FoldMac::mac(b"key", b"second message"));
}

#[test]
fn finalize_reset_of_nothing_matches_empty_message() {
    let mut state = FoldMac::new(b"key");
    let tag = state.finalize_reset();
    assert_eq!(tag, FoldMac::mac(b"key", b""));
    let again = state.finalize();
    assert_eq!(again, FoldMac::mac(b"key", b""));
}

#[test]
fn invalid_secret_is_rejected_at_initialization() {
    assert!(!FoldMac::secret_ok(b""));
    assert_eq!(FoldMac::try_new(b"").err(), Some(MacError::InvalidSecret));
}

#[test]
fn invalid_secret_is_rejected_by_one_shot_compute() {
    assert_eq!(
        FoldMac::try_mac(b"", b"hello world").err(),
        Some(MacError::InvalidSecret)
    );
}

#[test]
fn valid_secret_is_accepted() {
    assert!(FoldMac::secret_ok(b"key"));
    let tag = FoldMac::try_mac(b"key", b"hello world").unwrap();
    assert_eq!(tag, FoldMac::mac(b"key", b"hello world"));

    let state = FoldMac::try_new(b"key").unwrap();
    assert_eq!(state.finalize(), FoldMac::mac(b"key", b""));
}

#[test]
fn try_finalize_matches_finalize() {
    let mut state = FoldMac::try_new(b"key").unwrap();
    state.update(b"hello world");
    let tag = state.try_finalize().unwrap();
    assert_eq!(tag, FoldMac::mac(b"key", b"hello world"));
}

#[test]
fn try_finalize_reset_matches_and_allows_reuse() {
    let mut state = FoldMac::try_new(b"key").unwrap();
    state.update(b"hello world");
    let first = state.try_finalize_reset().unwrap();
    assert_eq!(first, FoldMac::mac(b"key", b"hello world"));

    state.update(b"again");
    let second = state.try_finalize().unwrap();
    assert_eq!(second, FoldMac::mac(b"key", b"again"));
}

#[test]
fn one_byte_secret_is_accepted() {
    assert!(FoldMac::secret_ok(b"k"));
    let tag = FoldMac::try_mac(b"k", b"data").unwrap();
    assert_eq!(tag.len(), 4);
}
