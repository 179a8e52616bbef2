//! Hash pipeline: Keccak-256 as an incremental primitive.
//!
//! The hash itself is trusted. What is stated here is how the engine uses
//! it: bytes are absorbed in pieces, a partly filled state is copied without
//! being consumed, and a copy is finished into a 32-byte digest.

use tiny_keccak::Keccak;
use vstd::prelude::*;

verus! {

/// `tiny_keccak::Keccak`, the sponge state. Nothing inside it is visible
/// here.
#[verifier::external_type_specification]
#[verifier::external_body]
pub struct ExKeccak(Keccak);

/// The Keccak-256 digest of `message`: the 32 bytes that a sponge made by
/// `Keccak::new_keccak256` writes in `Keccak::finalize` after absorbing
/// `message`. The hash is not specified further.
pub uninterp spec fn keccak256(message: Seq<u8>) -> Seq<u8>;

/// What a sponge holds: the bytes passed to `Keccak::update` since the
/// sponge was created, in order.
pub uninterp spec fn absorbed(state: Keccak) -> Seq<u8>;

/// `Keccak::new_keccak256`: a fresh Keccak-256 state, which has absorbed
/// nothing yet.
#[verifier::external_body]
pub(crate) fn keccak_new() -> (state: Keccak)
    ensures
        absorbed(state) == Seq::<u8>::empty(),
{
    Keccak::new_keccak256()
}

/// `Keccak::update`: the state absorbs `input` after what it already holds.
/// The sponge depends only on the concatenation of its inputs, not on how
/// they were cut into calls.
#[verifier::external_body]
pub(crate) fn keccak_update(state: &mut Keccak, input: &[u8])
    ensures
        absorbed(*final(state)) == absorbed(*old(state)) + input@,
{
    state.update(input)
}

/// `Keccak::clone`: an independent copy that has absorbed the same bytes.
#[verifier::external_body]
pub(crate) fn keccak_clone(state: &Keccak) -> (copy: Keccak)
    ensures
        absorbed(copy) == absorbed(*state),
{
    state.clone()
}

/// `Keccak::finalize` into a 32-byte buffer: pads, permutes and squeezes,
/// which yields the Keccak-256 digest of everything absorbed. The state is
/// consumed.
#[verifier::external_body]
pub(crate) fn keccak_finalize(state: Keccak) -> (digest: [u8; 32])
    ensures
        digest@ == keccak256(absorbed(state)),
{
    let mut digest: [u8; 32] = [0; 32];
    state.finalize(&mut digest);
    digest
}

/// A Keccak-256 computation under way. Its view is the sequence of bytes
/// absorbed so far.
///
/// The state that a sweep starts every candidate from is such a value: it
/// holds the header, is filled once, and is only ever copied afterwards.
pub struct HashState {
    sponge: Keccak,
}

impl View for HashState {
    type V = Seq<u8>;

    closed spec fn view(&self) -> Seq<u8> {
        absorbed(self.sponge)
    }
}

impl HashState {
    /// A state that has absorbed nothing.
    pub fn new() -> (state: HashState)
        ensures
            state@ == Seq::<u8>::empty(),
    {
        HashState { sponge: keccak_new() }
    }

    /// Absorbs `bytes` after what the state already holds.
    pub fn absorb(&mut self, bytes: &[u8])
        ensures
            final(self)@ == old(self)@ + bytes@,
    {
        keccak_update(&mut self.sponge, bytes);
    }

    /// An independent copy of the state, which itself stays as it is.
    pub fn snapshot(&self) -> (copy: HashState)
        ensures
            copy@ == self@,
    {
        HashState { sponge: keccak_clone(&self.sponge) }
    }

    /// Finishes the computation: the digest of all that was absorbed.
    pub fn finalize(self) -> (digest: [u8; 32])
        ensures
            digest@ == keccak256(self@),
    {
        keccak_finalize(self.sponge)
    }

    /// The digest of what the state holds followed by `body` and `footer`.
    /// The two pieces go into a copy, so the state can serve again.
    pub fn digest_with(&self, body: &[u8], footer: &[u8]) -> (digest: [u8; 32])
        ensures
            digest@ == keccak256(self@ + body@ + footer@),
    {
        let mut state = self.snapshot();
        state.absorb(body);
        state.absorb(footer);
        state.finalize()
    }
}

/// The Keccak-256 digest of a message given in one piece.
pub fn keccak256_digest(message: &[u8]) -> (digest: [u8; 32])
    ensures
        digest@ == keccak256(message@),
{
    let mut state = HashState::new();
    state.absorb(message);
    state.finalize()
}

} // verus!
