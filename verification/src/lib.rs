//! Core contract for Message Authentication Code (MAC) algorithms.
//!
//! A MAC algorithm turns a secret and a message into a fixed-size
//! authentication tag.  This crate pins down the behavioural contract every
//! such algorithm must satisfy — one-shot computation, the incremental
//! (initialize / update / finalize) state machine, the fixed-size output
//! guarantee, and the error taxonomy — and proves the streaming laws that
//! make incremental computation trustworthy.

use vstd::prelude::*;

pub mod fold_mac;
pub mod laws;

verus! {

/// A MAC tag: a fixed array of bytes whose length is a property of the
/// algorithm, never of the data.
pub type Mac<const SIZE: usize> = [u8; SIZE];

/// The recoverable failures of a MAC computation.
///
/// Misuse of an already-consumed state is deliberately *not* a variant here:
/// `finalize` takes its state by value, so any later use of that state is
/// rejected by the compiler rather than reported at run time.
#[derive(Clone, Copy, Debug, PartialEq, Eq, Structural)]
pub enum MacError {
    /// The supplied secret fails the algorithm's structural requirement
    /// (for example, a zero-length secret where one is disallowed).
    InvalidSecret,
    /// An algorithm-internal failure unrelated to the shape of the inputs.
    ComputationFailure,
}

/// A function for computing a MAC given a message and a secret.
///
/// An implementor provides a mathematical model of itself — the secret it
/// was initialized with (`secret`), the message bytes fed so far (`stream`),
/// its well-formedness invariant (`inv`), which secrets it accepts
/// (`spec_secret_ok`), and the tag it computes (`spec_tag`) — and the
/// executable methods are then bound to that model:
///
/// - `new` starts an open computation with an empty stream;
/// - `update` appends bytes to the stream, at arbitrary chunk boundaries;
/// - `finalize` consumes the state and produces `spec_tag(secret, stream)`;
/// - `finalize_reset` produces the same tag but returns the state to the
///   freshly-initialized condition for reuse.
///
/// NOTE: consult the documentation of a specific MAC algorithm before use;
/// some require more data than these compute functions take to be secure.
pub trait MacFn<const OUTPUT_SIZE: usize>: Sized {
    /// Which secrets this algorithm accepts as structurally valid.
    spec fn spec_secret_ok(secret: Seq<u8>) -> bool;

    /// The tag this algorithm assigns to a secret and a complete message.
    spec fn spec_tag(secret: Seq<u8>, message: Seq<u8>) -> Seq<u8>;

    /// The secret this state was initialized with.
    spec fn secret(&self) -> Seq<u8>;

    /// All message bytes fed to this state since it was (re-)initialized.
    spec fn stream(&self) -> Seq<u8>;

    /// Well-formedness of an open computation state.
    spec fn inv(&self) -> bool;

    /// Every tag this algorithm assigns has exactly its declared length.
    proof fn lemma_tag_len(secret: Seq<u8>, message: Seq<u8>)
        ensures
            Self::spec_tag(secret, message).len() == OUTPUT_SIZE,
    ;

    /// Decide, executably, whether a secret is structurally valid.
    fn secret_ok(secret: &[u8]) -> (b: bool)
        ensures
            b == Self::spec_secret_ok(secret@),
    ;

    /// Initialize MAC state.
    fn new(secret: &[u8]) -> (s: Self)
        requires
            Self::spec_secret_ok(secret@),
        ensures
            s.inv(),
            s.secret() == secret@,
            s.stream() == Seq::<u8>::empty(),
    ;

    /// Update the MAC state with the given data.
    fn update(&mut self, data: &[u8])
        requires
            old(self).inv(),
        ensures
            final(self).inv(),
            final(self).secret() == old(self).secret(),
            final(self).stream() == old(self).stream() + data@,
    ;

    /// Consumes the MAC state, producing the final MAC.
    fn finalize(self) -> (tag: Mac<OUTPUT_SIZE>)
        requires
            self.inv(),
        ensures
            tag@ == Self::spec_tag(self.secret(), self.stream()),
    ;

    /// Produces the final MAC, resetting the MAC state for reuse: afterwards
    /// the state is as if freshly initialized with the same secret.
    fn finalize_reset(&mut self) -> (tag: Mac<OUTPUT_SIZE>)
        requires
            old(self).inv(),
        ensures
            tag@ == Self::spec_tag(old(self).secret(), old(self).stream()),
            final(self).inv(),
            final(self).secret() == old(self).secret(),
            final(self).stream() == Seq::<u8>::empty(),
    ;

    /// Begin a new computation, reporting failure as a recoverable error.
    ///
    /// A structurally invalid secret is answered with `InvalidSecret`, and
    /// never with a usable state; an implementation backed by fallible
    /// machinery may answer `ComputationFailure` for a valid secret.  The
    /// provided implementation validates the secret and never fails
    /// internally.
    fn try_new(secret: &[u8]) -> (r: Result<Self, MacError>)
        ensures
            r matches Ok(s) ==> Self::spec_secret_ok(secret@) && s.inv() && s.secret() == secret@
                && s.stream() == Seq::<u8>::empty(),
            !Self::spec_secret_ok(secret@) ==> r == Result::<Self, MacError>::Err(
                MacError::InvalidSecret,
            ),
            r == Result::<Self, MacError>::Err(MacError::InvalidSecret)
                ==> !Self::spec_secret_ok(secret@),
        default_ensures
            Self::spec_secret_ok(secret@) ==> r is Ok,
    {
        if Self::secret_ok(secret) {
            Ok(Self::new(secret))
        } else {
            Err(MacError::InvalidSecret)
        }
    }

    /// Consume the MAC state, reporting failure as a recoverable error.
    ///
    /// A secret problem is reported at initialization, never here: the only
    /// failure an implementation may answer is `ComputationFailure`.  The
    /// provided implementation never fails.
    fn try_finalize(self) -> (r: Result<Mac<OUTPUT_SIZE>, MacError>)
        requires
            self.inv(),
        ensures
            r matches Ok(tag) ==> tag@ == Self::spec_tag(self.secret(), self.stream()),
            r matches Err(e) ==> e == MacError::ComputationFailure,
        default_ensures
            r is Ok,
    {
        Ok(self.finalize())
    }

    /// Produce the final MAC and reset the state for reuse, reporting
    /// failure as a recoverable error.
    ///
    /// On success the state is as if freshly initialized with the same
    /// secret; on `ComputationFailure` nothing is promised of the state and
    /// the caller should discard it.  The provided implementation never
    /// fails.
    fn try_finalize_reset(&mut self) -> (r: Result<Mac<OUTPUT_SIZE>, MacError>)
        requires
            old(self).inv(),
        ensures
            r matches Ok(tag) ==> tag@ == Self::spec_tag(old(self).secret(), old(self).stream())
                && final(self).inv() && final(self).secret() == old(self).secret()
                && final(self).stream() == Seq::<u8>::empty(),
            r matches Err(e) ==> e == MacError::ComputationFailure,
        default_ensures
            r is Ok,
    {
        Ok(self.finalize_reset())
    }

    /// Compute a MAC given a secret and a message, reporting failure as a
    /// recoverable error.
    ///
    /// Equivalent to `try_new` followed by `update(message)` and
    /// `try_finalize`; success yields the same tag as `mac`.
    fn try_mac(secret: &[u8], message: &[u8]) -> (r: Result<Mac<OUTPUT_SIZE>, MacError>)
        ensures
            r matches Ok(tag) ==> Self::spec_secret_ok(secret@) && tag@ == Self::spec_tag(
                secret@,
                message@,
            ),
            !Self::spec_secret_ok(secret@) ==> r == Result::<Mac<OUTPUT_SIZE>, MacError>::Err(
                MacError::InvalidSecret,
            ),
            r == Result::<Mac<OUTPUT_SIZE>, MacError>::Err(MacError::InvalidSecret)
                ==> !Self::spec_secret_ok(secret@),
        default_ensures
            Self::spec_secret_ok(secret@) ==> r is Ok,
    {
        if Self::secret_ok(secret) {
            Ok(Self::mac(secret, message))
        } else {
            Err(MacError::InvalidSecret)
        }
    }

    /// Compute a MAC given a secret and a message.
    fn mac(secret: &[u8], message: &[u8]) -> (tag: Mac<OUTPUT_SIZE>)
        requires
            Self::spec_secret_ok(secret@),
        ensures
            tag@ == Self::spec_tag(secret@, message@),
    {
        let mut mac = Self::new(secret);

        mac.update(message);

        proof {
            assert(mac.stream() =~= message@);
        }

        mac.finalize()
    }
}

/// The view of a sequence of chunks: each chunk as its byte sequence.
pub open spec fn chunks_view(chunks: Seq<Vec<u8>>) -> Seq<Seq<u8>> {
    chunks.map(|i: int, c: Vec<u8>| c@)
}

/// The message obtained by concatenating a sequence of chunks in order.
pub open spec fn concat_chunks(chunks: Seq<Seq<u8>>) -> Seq<u8>
    decreases chunks.len(),
{
    if chunks.len() == 0 {
        Seq::empty()
    } else {
        concat_chunks(chunks.drop_last()) + chunks.last()
    }
}

/// Compute a MAC over a message delivered as chunks, by driving the
/// streaming state machine across them.
///
/// This is the streaming-equivalence guarantee in executable form: however
/// the message was split — including the empty split and the single-chunk
/// split — the tag is exactly the one-shot tag of the concatenated message,
/// the same value `mac` returns for it.
pub fn mac_chunked<const OUTPUT_SIZE: usize, A: MacFn<OUTPUT_SIZE>>(
    secret: &[u8],
    chunks: &Vec<Vec<u8>>,
) -> (tag: Mac<OUTPUT_SIZE>)
    requires
        A::spec_secret_ok(secret@),
    ensures
        tag@ == A::spec_tag(secret@, concat_chunks(chunks_view(chunks@))),
{
    let mut state = A::new(secret);
    let mut i: usize = 0;
    while i < chunks.len()
        invariant
            i <= chunks@.len(),
            state.inv(),
            state.secret() == secret@,
            state.stream() == concat_chunks(chunks_view(chunks@).take(i as int)),
        decreases chunks@.len() - i,
    {
        state.update(chunks[i].as_slice());
        proof {
            assert(chunks_view(chunks@).take(i as int + 1).drop_last() =~= chunks_view(
                chunks@,
            ).take(i as int));
        }
        i = i + 1;
    }
    proof {
        assert(chunks_view(chunks@).take(chunks@.len() as int) =~= chunks_view(chunks@));
    }
    state.finalize()
}

} // verus!
