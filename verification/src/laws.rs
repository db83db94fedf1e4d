//! The laws of the MAC contract, stated and proved once for every algorithm.
//!
//! Each law is a consequence of the contracts on [`MacFn`](crate::MacFn)
//! alone: it holds of every implementation, not just of the reference
//! algorithm.  Streaming equivalence — that driving the state machine over
//! any split of a message yields the one-shot tag — is stated and proved in
//! executable form by [`mac_chunked`](crate::mac_chunked).

use vstd::prelude::*;

use crate::MacFn;

verus! {

/// Determinism: two tags computed from the same secret and the same message
/// are identical.
///
/// `mac` ensures its result is `spec_tag(secret, message)`, a function of
/// the two inputs alone, so any two calls on the same inputs — here, any
/// two tags satisfying that postcondition — return the same bytes.
pub proof fn lemma_mac_deterministic<const OUTPUT_SIZE: usize, A: MacFn<OUTPUT_SIZE>>(
    secret: Seq<u8>,
    message: Seq<u8>,
    tag1: Seq<u8>,
    tag2: Seq<u8>,
)
    requires
        tag1 == A::spec_tag(secret, message),
        tag2 == A::spec_tag(secret, message),
    ensures
        tag1 == tag2,
{
}

/// Chunk-boundary invariance: from any open state, updating with `m1` and
/// then with `m2` yields the same final tag as one update with their
/// concatenation.
///
/// `update` appends to the stream, so the two call sequences leave the
/// streams `(stream + m1) + m2` and `stream + (m1 + m2)`; these are the
/// same sequence, and `finalize` maps equal streams to equal tags.
pub proof fn lemma_chunk_boundary_invariance<const OUTPUT_SIZE: usize, A: MacFn<OUTPUT_SIZE>>(
    state: A,
    m1: Seq<u8>,
    m2: Seq<u8>,
)
    ensures
        A::spec_tag(state.secret(), (state.stream() + m1) + m2) == A::spec_tag(
            state.secret(),
            state.stream() + (m1 + m2),
        ),
{
    assert((state.stream() + m1) + m2 =~= state.stream() + (m1 + m2));
}

/// Reset equivalence: a state returned to service by `finalize_reset` goes
/// on to produce exactly the tags a freshly initialized state would.
///
/// `finalize_reset` ensures the secret is kept and the stream is empty —
/// precisely the condition `new` establishes — so after both states see the
/// same continuation `m2`, `finalize` yields the same tag on each.
pub proof fn lemma_reset_equivalence<const OUTPUT_SIZE: usize, A: MacFn<OUTPUT_SIZE>>(
    reset_state: A,
    fresh_state: A,
    m2: Seq<u8>,
)
    requires
        reset_state.secret() == fresh_state.secret(),
        reset_state.stream() == Seq::<u8>::empty(),
        fresh_state.stream() == Seq::<u8>::empty(),
    ensures
        A::spec_tag(reset_state.secret(), reset_state.stream() + m2) == A::spec_tag(
            fresh_state.secret(),
            fresh_state.stream() + m2,
        ),
{
}

/// Fixed length: every tag an algorithm assigns has its declared output
/// length, whatever the secret and the message.
///
/// The executable guarantee is already carried by the tag type — a
/// `Mac<OUTPUT_SIZE>` is an array of exactly `OUTPUT_SIZE` bytes — and this
/// law lifts it to the model: the specified tag value has that length too,
/// by the obligation `lemma_tag_len` every implementation discharges.
pub proof fn lemma_fixed_length<const OUTPUT_SIZE: usize, A: MacFn<OUTPUT_SIZE>>(
    secret: Seq<u8>,
    message: Seq<u8>,
)
    ensures
        A::spec_tag(secret, message).len() == OUTPUT_SIZE,
{
    A::lemma_tag_len(secret, message);
}

} // verus!
