//! Salt construction: the bytes that go into the hash, and the random
//! segment that keeps separate runs apart.

use crate::codec::{hex_encode, hex_encoded, to_fixed_47};
use crate::hash::keccak256;
use rand::Rng;
use vstd::prelude::*;

verus! {

/// The byte that opens every CREATE2 message.
pub const CONTROL_CHARACTER: u8 = 0xff;

/// The part of the message that stays the same during a nonce sweep: the
/// control byte, the factory address, the calling address and the random
/// segment.
pub open spec fn header_bytes(factory: Seq<u8>, caller: Seq<u8>, segment: Seq<u8>) -> Seq<u8> {
    seq![CONTROL_CHARACTER] + factory + caller + segment
}

/// A salt: the calling address, the random segment, the nonce.
pub open spec fn salt_bytes(caller: Seq<u8>, segment: Seq<u8>, nonce: Seq<u8>) -> Seq<u8> {
    caller + segment + nonce
}

/// The message that CREATE2 hashes: the control byte, the deployer, the
/// salt, the hash of the initialization code.
pub open spec fn create2_message(factory: Seq<u8>, salt: Seq<u8>, init_code_hash: Seq<u8>) -> Seq<
    u8,
> {
    seq![CONTROL_CHARACTER] + factory + salt + init_code_hash
}

/// The address that CREATE2 derives: the last 20 bytes of the digest of the
/// message.
pub open spec fn create2_address(factory: Seq<u8>, salt: Seq<u8>, init_code_hash: Seq<u8>) -> Seq<
    u8,
> {
    keccak256(create2_message(factory, salt, init_code_hash)).subrange(12, 32)
}

/// A salt written out: `0x`, then its 64 lowercase hex digits.
pub open spec fn salt_text(salt: Seq<u8>) -> Seq<char> {
    seq!['0', 'x'] + hex_encoded(salt)
}

/// The header followed by a nonce and the hash of the initialization code is
/// the CREATE2 message for the salt made of that nonce, and with addresses
/// of 20 bytes, segments and nonces of 6 and a hash of 32 the salt has 32
/// bytes and the message 85.
pub proof fn lemma_message_layout(
    factory: Seq<u8>,
    caller: Seq<u8>,
    segment: Seq<u8>,
    nonce: Seq<u8>,
    init_code_hash: Seq<u8>,
)
    ensures
        header_bytes(factory, caller, segment) + nonce + init_code_hash == create2_message(
            factory,
            salt_bytes(caller, segment, nonce),
            init_code_hash,
        ),
        factory.len() == 20 && caller.len() == 20 && segment.len() == 6 ==> header_bytes(
            factory,
            caller,
            segment,
        ).len() == 47,
        caller.len() == 20 && segment.len() == 6 && nonce.len() == 6 ==> salt_bytes(
            caller,
            segment,
            nonce,
        ).len() == 32,
        factory.len() == 20 && caller.len() == 20 && segment.len() == 6 && nonce.len() == 6
            && init_code_hash.len() == 32 ==> create2_message(
            factory,
            salt_bytes(caller, segment, nonce),
            init_code_hash,
        ).len() == 85,
{
}

/// The address in a digest: its last 20 bytes.
pub fn address_of_digest(digest: &[u8; 32]) -> (address: [u8; 20])
    ensures
        address@ == digest@.subrange(12, 32),
{
    let mut address: [u8; 20] = [0; 20];
    let mut i: usize = 0;
    while i < 20
        invariant
            i <= 20,
            forall|j: int| 0 <= j < i ==> address@[j] == digest@[12 + j],
        decreases 20 - i,
    {
        address[i] = digest[12 + i];
        i += 1;
    }
    address
}

/// One byte from `rand`'s thread-local generator, `thread_rng().gen::<u8>()`.
/// Any byte may come back, so nothing is promised of it. The generator is
/// seeded by the system and gives up if the system has no entropy for it.
#[verifier::external_body]
fn random_byte() -> u8 {
    rand::thread_rng().gen::<u8>()
}

/// Six fresh random bytes for the middle of the salt.
pub(crate) fn random_segment() -> [u8; 6] {
    let mut segment: [u8; 6] = [0; 6];
    let mut i: usize = 0;
    while i < 6
        invariant
            i <= 6,
        decreases 6 - i,
    {
        segment[i] = random_byte();
        i += 1;
    }
    segment
}

/// The 47 bytes that are hashed once for a whole sweep.
pub fn header(factory: &[u8; 20], caller: &[u8; 20], segment: &[u8; 6]) -> (header: [u8; 47])
    ensures
        header@ == header_bytes(factory@, caller@, segment@),
{
    let mut header_vec: Vec<u8> = Vec::new();
    header_vec.push(CONTROL_CHARACTER);
    header_vec.extend_from_slice(factory.as_slice());
    header_vec.extend_from_slice(caller.as_slice());
    header_vec.extend_from_slice(segment.as_slice());
    to_fixed_47(&header_vec)
}

/// The full 32-byte salt of one candidate, written as `0x` and 64 hex
/// digits.
pub fn full_salt(caller: &[u8; 20], segment: &[u8; 6], nonce: &[u8; 6]) -> (text: String)
    ensures
        text@ == salt_text(salt_bytes(caller@, segment@, nonce@)),
{
    let mut salt: Vec<u8> = Vec::new();
    salt.extend_from_slice(caller.as_slice());
    salt.extend_from_slice(segment.as_slice());
    salt.extend_from_slice(nonce.as_slice());
    let digits = hex_encode(salt.as_slice());
    let mut text = String::new();
    text.push('0');
    text.push('x');
    text.append(digits.as_str());
    text
}

} // verus!
