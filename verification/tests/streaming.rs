//! Streaming behaviour of the reference algorithm: every split of a message
//! yields the one-shot tag.

use mac_core::fold_mac::FoldMac;
use mac_core::mac_chunked;
use mac_core::MacFn;

#[test]
fn streaming_matches_one_shot() {
    // Ground truth computed once, then asserted across both call paths.
    let one_shot = FoldMac::mac(b"key", b"hello world");
    assert_eq!(one_shot, [110, 181, 133, 74]);

    let mut state = FoldMac::new(b"key");
    state.update(b"hello ");
    state.update(b"world");
    assert_eq!(state.finalize(), one_shot);
}

#[test]
fn empty_split_matches_empty_message() {
    let one_shot = FoldMac::mac(b"key", b"");
    assert_eq!(one_shot, [146, 186, 193, 18]);

    let state = FoldMac::new(b"key");
    assert_eq!(state.finalize(), one_shot);
}

#[test]
fn single_chunk_split_matches_one_shot() {
    let one_shot = FoldMac::mac(b"key", b"hello world");

    let mut state = FoldMac::new(b"key");
    state.update(b"hello world");
    assert_eq!(state.finalize(), one_shot);
}

#[test]
fn byte_by_byte_split_matches_one_shot() {
    let message = b"hello world";
    let one_shot = FoldMac::mac(b"key", message);

    let mut state = FoldMac::new(b"key");
    for byte in message.iter() {
        state.update(&[*byte]);
    }
    assert_eq!(state.finalize(), one_shot);
}

#[test]
fn chunk_boundary_invariance() {
    let m1: &[u8] = b"hello ";
    let m2: &[u8] = b"world";
    let mut joined = m1.to_vec();
    joined.extend_from_slice(m2);

    let mut two_updates = FoldMac::new(b"key");
    two_updates.update(m1);
    two_updates.update(m2);

    let mut one_update = FoldMac::new(b"key");
    one_update.update(&joined);

    assert_eq!(two_updates.finalize(), one_update.finalize());
}

#[test]
fn empty_updates_do_not_change_the_tag() {
    let one_shot = FoldMac::mac(b"key", b"hello world");

    let mut state = FoldMac::new(b"key");
    state.update(b"");
    state.update(b"hello world");
    state.update(b"");
    assert_eq!(state.finalize(), one_shot);
}

#[test]
fn mac_chunked_matches_mac() {
    let chunks = vec![b"hello ".to_vec(), b"world".to_vec()];
    let tag = mac_chunked::<4, FoldMac>(b"key", &chunks);
    assert_eq!(tag, FoldMac::mac(b"key", b"hello world"));
}

#[test]
fn mac_chunked_of_no_chunks_matches_empty_message() {
    let chunks: Vec<Vec<u8>> = vec![];
    let tag = mac_chunked::<4, FoldMac>(b"key", &chunks);
    assert_eq!(tag, FoldMac::mac(b"key", b""));
}

#[test]
fn tag_length_is_fixed_for_all_message_sizes() {
    assert_eq!(FoldMac::mac(b"key", b"").len(), 4);
    assert_eq!(FoldMac::mac(b"key", b"a").len(), 4);

    let large = vec![0xABu8; 10_000_000];
    assert_eq!(FoldMac::mac(b"key", &large).len(), 4);
}
