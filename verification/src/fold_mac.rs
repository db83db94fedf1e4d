//! A reference MAC algorithm: a deterministic, non-cryptographic byte fold.
//!
//! `FoldMac` exists to exercise the whole [`MacFn`] contract with an
//! algorithm whose mathematics is simple enough to state in full: it folds
//! the secret and then the message into a 32-bit accumulator, one byte at a
//! time, and emits the accumulator as a four-byte big-endian tag.  It offers
//! no cryptographic strength whatsoever and must never be used to
//! authenticate anything.

use vstd::prelude::*;

use crate::Mac;
use crate::MacFn;

verus! {

broadcast use vstd::array::group_array_axioms;

/// The accumulator value every computation starts from.
pub const FOLD_BASIS: u32 = 0x811C_9DC5;

/// The multiplier applied to the accumulator before each byte is mixed in.
pub const FOLD_PRIME: u32 = 16_777_619;

/// One step of the fold: mix a single byte into the accumulator.
pub open spec fn fold_step(acc: u32, byte: u8) -> u32 {
    ((acc * FOLD_PRIME + byte) % 0x1_0000_0000) as u32
}

/// The accumulator after mixing in `data`, byte by byte, left to right.
pub open spec fn fold_absorb(acc: u32, data: Seq<u8>) -> u32
    decreases data.len(),
{
    if data.len() == 0 {
        acc
    } else {
        fold_step(fold_absorb(acc, data.drop_last()), data.last())
    }
}

/// The four big-endian bytes of an accumulator.
pub open spec fn fold_tag_bytes(acc: u32) -> Seq<u8> {
    seq![
        ((acc / 0x100_0000) % 0x100) as u8,
        ((acc / 0x1_0000) % 0x100) as u8,
        ((acc / 0x100) % 0x100) as u8,
        (acc % 0x100) as u8,
    ]
}

/// Which secrets `FoldMac` accepts: any non-empty byte sequence.
pub open spec fn fold_secret_ok(secret: Seq<u8>) -> bool {
    secret.len() > 0
}

/// The tag `FoldMac` assigns to a secret and a complete message.
pub open spec fn fold_tag(secret: Seq<u8>, message: Seq<u8>) -> Seq<u8> {
    fold_tag_bytes(fold_absorb(fold_absorb(FOLD_BASIS, secret), message))
}

/// Mixing in `x + y` is mixing in `x`, then mixing in `y`.
///
/// This is what lets `FoldMac` accept message bytes at arbitrary chunk
/// boundaries: the accumulator after a chunk is a valid starting point for
/// the next one.
pub proof fn lemma_fold_absorb_concat(acc: u32, x: Seq<u8>, y: Seq<u8>)
    ensures
        fold_absorb(acc, x + y) == fold_absorb(fold_absorb(acc, x), y),
    decreases y.len(),
{
    if y.len() == 0 {
        assert(x + y =~= x);
    } else {
        lemma_fold_absorb_concat(acc, x, y.drop_last());
        assert((x + y).drop_last() =~= x + y.drop_last());
    }
}

/// Mix a single byte into the accumulator.
fn fold_step_exec(acc: u32, byte: u8) -> (r: u32)
    ensures
        r == fold_step(acc, byte),
{
    // 64-bit room: the product is at most (2^32 - 1) * FOLD_PRIME, well
    // below 2^64, so neither the multiplication nor the sum can wrap.
    let wide: u64 = (acc as u64) * 16_777_619;
    ((wide + (byte as u64)) % 0x1_0000_0000) as u32
}

/// Mix a slice of bytes into the accumulator, left to right.
fn fold_absorb_exec(acc: u32, data: &[u8]) -> (r: u32)
    ensures
        r == fold_absorb(acc, data@),
{
    let mut r = acc;
    let mut i: usize = 0;
    while i < data.len()
        invariant
            i <= data@.len(),
            r == fold_absorb(acc, data@.take(i as int)),
        decreases data@.len() - i,
    {
        r = fold_step_exec(r, data[i]);
        proof {
            assert(data@.take(i as int + 1).drop_last() =~= data@.take(i as int));
        }
        i = i + 1;
    }
    proof {
        assert(data@.take(data@.len() as int) =~= data@);
    }
    r
}

/// Emit an accumulator as a four-byte big-endian tag.
fn fold_tag_bytes_exec(acc: u32) -> (tag: Mac<4>)
    ensures
        tag@ == fold_tag_bytes(acc),
{
    let mut tag: Mac<4> = [0u8; 4];
    tag[0] = ((acc / 0x100_0000) % 0x100) as u8;
    tag[1] = ((acc / 0x1_0000) % 0x100) as u8;
    tag[2] = ((acc / 0x100) % 0x100) as u8;
    tag[3] = (acc % 0x100) as u8;
    proof {
        assert(tag@ =~= fold_tag_bytes(acc));
    }
    tag
}

/// An open `FoldMac` computation.
///
/// The executable fields are two accumulators: the one reached after the
/// secret alone (kept so that `finalize_reset` can restart without
/// re-deriving it) and the current one.  The secret and the stream fed so
/// far are carried as ghost data only, to state the invariant; the secret
/// bytes themselves are not retained.
pub struct FoldMac {
    key_acc: u32,
    acc: u32,
    secret_model: Ghost<Seq<u8>>,
    stream_model: Ghost<Seq<u8>>,
}

impl MacFn<4> for FoldMac {
    open spec fn spec_secret_ok(secret: Seq<u8>) -> bool {
        fold_secret_ok(secret)
    }

    open spec fn spec_tag(secret: Seq<u8>, message: Seq<u8>) -> Seq<u8> {
        fold_tag(secret, message)
    }

    closed spec fn secret(&self) -> Seq<u8> {
        self.secret_model@
    }

    closed spec fn stream(&self) -> Seq<u8> {
        self.stream_model@
    }

    closed spec fn inv(&self) -> bool {
        &&& fold_secret_ok(self.secret_model@)
        &&& self.key_acc == fold_absorb(FOLD_BASIS, self.secret_model@)
        &&& self.acc == fold_absorb(self.key_acc, self.stream_model@)
    }

    proof fn lemma_tag_len(secret: Seq<u8>, message: Seq<u8>) {
    }

    fn secret_ok(secret: &[u8]) -> (b: bool) {
        secret.len() > 0
    }

    fn new(secret: &[u8]) -> (s: Self) {
        let key_acc = fold_absorb_exec(FOLD_BASIS, secret);
        FoldMac {
            key_acc,
            acc: key_acc,
            secret_model: Ghost(secret@),
            stream_model: Ghost(Seq::empty()),
        }
    }

    fn update(&mut self, data: &[u8]) {
        proof {
            lemma_fold_absorb_concat(self.key_acc, self.stream_model@, data@);
        }
        self.acc = fold_absorb_exec(self.acc, data);
        self.stream_model = Ghost(self.stream_model@ + data@);
    }

    fn finalize(self) -> (tag: Mac<4>) {
        fold_tag_bytes_exec(self.acc)
    }

    fn finalize_reset(&mut self) -> (tag: Mac<4>) {
        let tag = fold_tag_bytes_exec(self.acc);
        self.acc = self.key_acc;
        self.stream_model = Ghost(Seq::empty());
        tag
    }
}

} // verus!
