//! Address codec: hex text, fixed-width byte arrays and integer encodings.

use crate::hash::{keccak256, keccak256_digest};
use hex::{FromHex, FromHexError};
use vstd::prelude::*;
use vstd::utf8::{encode_utf8, is_ascii_chars_encode_utf8};

verus! {

/// `String::push` appends one character.
pub assume_specification[ String::push ](text: &mut String, c: char)
    ensures
        final(text)@ == old(text)@.push(c),
;

/// The error of `hex`'s decoder. Which of its cases occurred is not looked
/// at.
#[verifier::external_type_specification]
#[verifier::external_body]
pub struct ExFromHexError(FromHexError);

/// `c` is one of `0..9`, `a..f`, `A..F`.
pub open spec fn is_hex_digit(c: char) -> bool {
    ('0' <= c && c <= '9') || ('a' <= c && c <= 'f') || ('A' <= c && c <= 'F')
}

/// `c` is one of `0..9`, `a..f`.
pub open spec fn is_lower_hex_digit(c: char) -> bool {
    ('0' <= c && c <= '9') || ('a' <= c && c <= 'f')
}

/// The number a hex digit stands for, whatever its case.
pub open spec fn hex_digit_value(c: char) -> int {
    if '0' <= c && c <= '9' {
        c as int - '0' as int
    } else if 'a' <= c && c <= 'f' {
        c as int - 'a' as int + 10
    } else {
        c as int - 'A' as int + 10
    }
}

/// The lowercase hex digit for a number below 16.
pub open spec fn lower_hex_digit(n: int) -> char {
    if n < 10 {
        ('0' as int + n) as char
    } else {
        ('a' as int + n - 10) as char
    }
}

/// ASCII uppercase: `a..z` move to `A..Z`, every other character stays.
pub open spec fn ascii_upper(c: char) -> char {
    if 'a' <= c && c <= 'z' {
        (c as int - 32) as char
    } else {
        c
    }
}

/// ASCII lowercase: `A..Z` move to `a..z`, every other character stays.
pub open spec fn ascii_lower(c: char) -> char {
    if 'A' <= c && c <= 'Z' {
        (c as int + 32) as char
    } else {
        c
    }
}

/// A text with every character replaced by its ASCII lowercase.
pub open spec fn lowercase(text: Seq<char>) -> Seq<char> {
    Seq::new(text.len(), |i: int| ascii_lower(text[i]))
}

/// Every character of `text` is a hex digit.
pub open spec fn all_hex_digits(text: Seq<char>) -> bool {
    forall|i: int| 0 <= i < text.len() ==> is_hex_digit(#[trigger] text[i])
}

/// Every character of `text` is a lowercase hex digit.
pub open spec fn all_lower_hex_digits(text: Seq<char>) -> bool {
    forall|i: int| 0 <= i < text.len() ==> is_lower_hex_digit(#[trigger] text[i])
}

/// The byte that the `i`-th pair of hex digits of `text` stands for.
pub open spec fn hex_pair_value(text: Seq<char>, i: int) -> u8 {
    (16 * hex_digit_value(text[2 * i]) + hex_digit_value(text[2 * i + 1])) as u8
}

/// The bytes that a hex text stands for: one byte for each pair of digits.
/// `None` when the text has an odd number of characters or holds a
/// character that is no hex digit.
pub open spec fn hex_decoded(text: Seq<char>) -> Option<Seq<u8>> {
    if text.len() % 2 == 0 && all_hex_digits(text) {
        Some(Seq::new(text.len() / 2, |i: int| hex_pair_value(text, i)))
    } else {
        None
    }
}

/// The `i`-th half-byte of `bytes`, high half first.
pub open spec fn nibble(bytes: Seq<u8>, i: int) -> int {
    if i % 2 == 0 {
        bytes[i / 2] as int / 16
    } else {
        bytes[i / 2] as int % 16
    }
}

/// The lowercase hex text of `bytes`: two digits for each byte.
pub open spec fn hex_encoded(bytes: Seq<u8>) -> Seq<char> {
    Seq::new(2 * bytes.len(), |i: int| lower_hex_digit(nibble(bytes, i)))
}

/// The characters of a string, one by one.
pub fn chars_of(text: &str) -> (chars: Vec<char>)
    ensures
        chars@ == text@,
{
    let mut chars: Vec<char> = Vec::new();
    for c in it: text.chars()
        invariant
            it.seq() == text@,
            chars@ == text@.take(it.index()),
    {
        chars.push(c);
    }
    chars
}

/// Copies the first 20 bytes of `bytes` into an array.
pub fn to_fixed_20(bytes: Vec<u8>) -> (array: [u8; 20])
    requires
        bytes.len() >= 20,
    ensures
        array@ == bytes@.subrange(0, 20),
{
    let mut array: [u8; 20] = [0; 20];
    let mut i: usize = 0;
    while i < 20
        invariant
            i <= 20,
            bytes.len() >= 20,
            forall|j: int| 0 <= j < i ==> array@[j] == bytes@[j],
        decreases 20 - i,
    {
        array[i] = bytes[i];
        i += 1;
    }
    array
}

/// Copies the first 32 bytes of `bytes` into an array.
pub fn to_fixed_32(bytes: Vec<u8>) -> (array: [u8; 32])
    requires
        bytes.len() >= 32,
    ensures
        array@ == bytes@.subrange(0, 32),
{
    let mut array: [u8; 32] = [0; 32];
    let mut i: usize = 0;
    while i < 32
        invariant
            i <= 32,
            bytes.len() >= 32,
            forall|j: int| 0 <= j < i ==> array@[j] == bytes@[j],
        decreases 32 - i,
    {
        array[i] = bytes[i];
        i += 1;
    }
    array
}

/// Copies the first 47 bytes of `bytes` into an array.
pub fn to_fixed_47(bytes: &Vec<u8>) -> (array: [u8; 47])
    requires
        bytes.len() >= 47,
    ensures
        array@ == bytes@.subrange(0, 47),
{
    let mut array: [u8; 47] = [0; 47];
    let mut i: usize = 0;
    while i < 47
        invariant
            i <= 47,
            bytes.len() >= 47,
            forall|j: int| 0 <= j < i ==> array@[j] == bytes@[j],
        decreases 47 - i,
    {
        array[i] = bytes[i];
        i += 1;
    }
    array
}

/// Copies the first 4 bytes of `bytes` into an array.
pub fn to_fixed_4(bytes: &Vec<u8>) -> (array: [u8; 4])
    requires
        bytes.len() >= 4,
    ensures
        array@ == bytes@.subrange(0, 4),
{
    let mut array: [u8; 4] = [0; 4];
    let mut i: usize = 0;
    while i < 4
        invariant
            i <= 4,
            bytes.len() >= 4,
            forall|j: int| 0 <= j < i ==> array@[j] == bytes@[j],
        decreases 4 - i,
    {
        array[i] = bytes[i];
        i += 1;
    }
    array
}

/// The number that `bytes` spell in base 256, most significant byte first.
pub open spec fn big_endian_value(bytes: Seq<u8>) -> nat
    decreases bytes.len(),
{
    if bytes.len() == 0 {
        0
    } else {
        256 * big_endian_value(bytes.drop_last()) + bytes.last() as nat
    }
}

/// The number that `bytes` spell in base 256, least significant byte first.
pub open spec fn little_endian_value(bytes: Seq<u8>) -> nat
    decreases bytes.len(),
{
    if bytes.len() == 0 {
        0
    } else {
        bytes.first() as nat + 256 * little_endian_value(bytes.drop_first())
    }
}

/// The low 48 bits of `x` as six bytes, most significant first.
pub open spec fn six_bytes(x: u64) -> Seq<u8> {
    seq![
        (x / 0x100_0000_0000 % 256) as u8,
        (x / 0x1_0000_0000 % 256) as u8,
        (x / 0x100_0000 % 256) as u8,
        (x / 0x1_0000 % 256) as u8,
        (x / 0x100 % 256) as u8,
        (x % 256) as u8,
    ]
}

/// The bytes of `x`, least significant first.
pub open spec fn eight_bytes_le(x: u64) -> Seq<u8> {
    seq![
        (x % 256) as u8,
        (x / 0x100 % 256) as u8,
        (x / 0x1_0000 % 256) as u8,
        (x / 0x100_0000 % 256) as u8,
        (x / 0x1_0000_0000 % 256) as u8,
        (x / 0x100_0000_0000 % 256) as u8,
        (x / 0x1_0000_0000_0000 % 256) as u8,
        (x / 0x100_0000_0000_0000 % 256) as u8,
    ]
}

/// The six-byte big-endian encoding of the low 48 bits of `x`.
pub fn u64_to_fixed_6(x: &u64) -> (array: [u8; 6])
    ensures
        array@ == six_bytes(*x),
{
    let x: u64 = *x;
    let mask: u64 = 0xff;
    let b1: u8 = ((x >> 40) & mask) as u8;
    let b2: u8 = ((x >> 32) & mask) as u8;
    let b3: u8 = ((x >> 24) & mask) as u8;
    let b4: u8 = ((x >> 16) & mask) as u8;
    let b5: u8 = ((x >> 8) & mask) as u8;
    let b6: u8 = (x & mask) as u8;
    assert(((x >> 40) & 0xff) as u8 == (x / 0x100_0000_0000 % 256) as u8) by (bit_vector);
    assert(((x >> 32) & 0xff) as u8 == (x / 0x1_0000_0000 % 256) as u8) by (bit_vector);
    assert(((x >> 24) & 0xff) as u8 == (x / 0x100_0000 % 256) as u8) by (bit_vector);
    assert(((x >> 16) & 0xff) as u8 == (x / 0x1_0000 % 256) as u8) by (bit_vector);
    assert(((x >> 8) & 0xff) as u8 == (x / 0x100 % 256) as u8) by (bit_vector);
    assert((x & 0xff) as u8 == (x % 256) as u8) by (bit_vector);
    let array: [u8; 6] = [b1, b2, b3, b4, b5, b6];
    array
}

/// The eight-byte little-endian encoding of `x`.
pub fn u64_to_le_fixed_8(x: &u64) -> (array: [u8; 8])
    ensures
        array@ == eight_bytes_le(*x),
{
    let x: u64 = *x;
    let mask: u64 = 0xff;
    let b1: u8 = ((x >> 56) & mask) as u8;
    let b2: u8 = ((x >> 48) & mask) as u8;
    let b3: u8 = ((x >> 40) & mask) as u8;
    let b4: u8 = ((x >> 32) & mask) as u8;
    let b5: u8 = ((x >> 24) & mask) as u8;
    let b6: u8 = ((x >> 16) & mask) as u8;
    let b7: u8 = ((x >> 8) & mask) as u8;
    let b8: u8 = (x & mask) as u8;
    assert(((x >> 56) & 0xff) as u8 == (x / 0x100_0000_0000_0000 % 256) as u8) by (bit_vector);
    assert(((x >> 48) & 0xff) as u8 == (x / 0x1_0000_0000_0000 % 256) as u8) by (bit_vector);
    assert(((x >> 40) & 0xff) as u8 == (x / 0x100_0000_0000 % 256) as u8) by (bit_vector);
    assert(((x >> 32) & 0xff) as u8 == (x / 0x1_0000_0000 % 256) as u8) by (bit_vector);
    assert(((x >> 24) & 0xff) as u8 == (x / 0x100_0000 % 256) as u8) by (bit_vector);
    assert(((x >> 16) & 0xff) as u8 == (x / 0x1_0000 % 256) as u8) by (bit_vector);
    assert(((x >> 8) & 0xff) as u8 == (x / 0x100 % 256) as u8) by (bit_vector);
    assert((x & 0xff) as u8 == (x % 256) as u8) by (bit_vector);
    let array: [u8; 8] = [b8, b7, b6, b5, b4, b3, b2, b1];
    array
}

/// What six bytes spell, written out position by position.
proof fn lemma_big_endian_six(s: Seq<u8>)
    requires
        s.len() == 6,
    ensures
        big_endian_value(s) == 0x100_0000_0000 * s[0] + 0x1_0000_0000 * s[1] + 0x100_0000 * s[2]
            + 0x1_0000 * s[3] + 0x100 * s[4] + s[5],
{
    let s5 = s.drop_last();
    let s4 = s5.drop_last();
    let s3 = s4.drop_last();
    let s2 = s3.drop_last();
    let s1 = s2.drop_last();
    let s0 = s1.drop_last();
    assert(big_endian_value(s0) == 0);
    assert(big_endian_value(s1) == 256 * big_endian_value(s0) + s[0]);
    assert(big_endian_value(s2) == 256 * big_endian_value(s1) + s[1]);
    assert(big_endian_value(s3) == 256 * big_endian_value(s2) + s[2]);
    assert(big_endian_value(s4) == 256 * big_endian_value(s3) + s[3]);
    assert(big_endian_value(s5) == 256 * big_endian_value(s4) + s[4]);
    assert(big_endian_value(s) == 256 * big_endian_value(s5) + s[5]);
}

/// Six bytes spell, most significant first, the low 48 bits of the number
/// they were made from.
pub proof fn lemma_six_bytes_value(x: u64)
    ensures
        six_bytes(x).len() == 6,
        big_endian_value(six_bytes(x)) == x % 0x1_0000_0000_0000,
{
    lemma_big_endian_six(six_bytes(x));
    assert(0x100_0000_0000 * ((x / 0x100_0000_0000 % 256) as u8) + 0x1_0000_0000 * ((x
        / 0x1_0000_0000 % 256) as u8) + 0x100_0000 * ((x / 0x100_0000 % 256) as u8) + 0x1_0000 * ((x
        / 0x1_0000 % 256) as u8) + 0x100 * ((x / 0x100 % 256) as u8) + ((x % 256) as u8) == x
        % 0x1_0000_0000_0000) by (bit_vector);
}

/// Two nonces below 2^48 with the same six bytes are the same nonce.
pub proof fn lemma_six_bytes_injective(x: u64, y: u64)
    requires
        x < 0x1_0000_0000_0000,
        y < 0x1_0000_0000_0000,
        six_bytes(x) == six_bytes(y),
    ensures
        x == y,
{
    lemma_six_bytes_value(x);
    lemma_six_bytes_value(y);
}

/// What eight bytes spell, least significant first, written out position by
/// position.
proof fn lemma_little_endian_eight(s: Seq<u8>)
    requires
        s.len() == 8,
    ensures
        little_endian_value(s) == s[0] + 0x100 * s[1] + 0x1_0000 * s[2] + 0x100_0000 * s[3]
            + 0x1_0000_0000 * s[4] + 0x100_0000_0000 * s[5] + 0x1_0000_0000_0000 * s[6]
            + 0x100_0000_0000_0000 * s[7],
{
    let s1 = s.drop_first();
    let s2 = s1.drop_first();
    let s3 = s2.drop_first();
    let s4 = s3.drop_first();
    let s5 = s4.drop_first();
    let s6 = s5.drop_first();
    let s7 = s6.drop_first();
    let s8 = s7.drop_first();
    assert(little_endian_value(s8) == 0);
    assert(little_endian_value(s7) == s[7] + 256 * little_endian_value(s8));
    assert(little_endian_value(s6) == s[6] + 256 * little_endian_value(s7));
    assert(little_endian_value(s5) == s[5] + 256 * little_endian_value(s6));
    assert(little_endian_value(s4) == s[4] + 256 * little_endian_value(s5));
    assert(little_endian_value(s3) == s[3] + 256 * little_endian_value(s4));
    assert(little_endian_value(s2) == s[2] + 256 * little_endian_value(s3));
    assert(little_endian_value(s1) == s[1] + 256 * little_endian_value(s2));
    assert(little_endian_value(s) == s[0] + 256 * little_endian_value(s1));
}

/// Eight bytes spell, least significant first, the number they were made
/// from.
pub proof fn lemma_eight_bytes_le_value(x: u64)
    ensures
        eight_bytes_le(x).len() == 8,
        little_endian_value(eight_bytes_le(x)) == x,
{
    lemma_little_endian_eight(eight_bytes_le(x));
    assert(((x % 256) as u8) + 0x100 * ((x / 0x100 % 256) as u8) + 0x1_0000 * ((x / 0x1_0000
        % 256) as u8) + 0x100_0000 * ((x / 0x100_0000 % 256) as u8) + 0x1_0000_0000 * ((x
        / 0x1_0000_0000 % 256) as u8) + 0x100_0000_0000 * ((x / 0x100_0000_0000 % 256) as u8)
        + 0x1_0000_0000_0000 * ((x / 0x1_0000_0000_0000 % 256) as u8) + 0x100_0000_0000_0000 * ((x
        / 0x100_0000_0000_0000 % 256) as u8) == x) by (bit_vector);
}

/// The text without its first two characters.
pub fn without_prefix(string: String) -> (rest: String)
    requires
        string@.len() >= 2,
    ensures
        rest@ == string@.skip(2),
{
    let text = string.as_str();
    let length = text.unicode_len();
    let rest = text.substring_char(2, length);
    rest.to_owned()
}

/// `hex::encode`: two lowercase digits for each byte, the high half-byte
/// first.
#[verifier::external_body]
pub(crate) fn hex_encode(bytes: &[u8]) -> (text: String)
    ensures
        text@ == hex_encoded(bytes@),
{
    hex::encode(bytes)
}

/// `Vec::<u8>::from_hex`: succeeds when the text has an even number of
/// bytes, each of them a hex digit of either case, and then gives one byte
/// for each pair, the first digit being the high half. A character outside
/// ASCII is stored as bytes that are no hex digits, so it fails like any
/// other stray character.
#[verifier::external_body]
pub(crate) fn hex_decode(text: &str) -> (bytes: Result<Vec<u8>, FromHexError>)
    ensures
        match bytes {
            Ok(decoded) => hex_decoded(text@) == Some(decoded@),
            Err(_) => hex_decoded(text@) is None,
        },
{
    Vec::from_hex(text)
}

/// The value of one hex digit, if `c` is one.
pub fn hex_digit(c: char) -> (value: Option<u8>)
    ensures
        value is Some <==> is_hex_digit(c),
        value matches Some(v) ==> v == hex_digit_value(c),
{
    if '0' <= c && c <= '9' {
        Some(c as u8 - 48)
    } else if 'a' <= c && c <= 'f' {
        Some(c as u8 - 87)
    } else if 'A' <= c && c <= 'F' {
        Some(c as u8 - 55)
    } else {
        None
    }
}

/// Reads hex digits pair by pair into bytes.
pub fn decode_hex_digits(digits: &[char]) -> (bytes: Option<Vec<u8>>)
    ensures
        match bytes {
            Some(decoded) => hex_decoded(digits@) == Some(decoded@),
            None => hex_decoded(digits@) is None,
        },
{
    let length = digits.len();
    if length % 2 != 0 {
        return None;
    }
    let mut decoded: Vec<u8> = Vec::new();
    let mut i: usize = 0;
    while i < length / 2
        invariant
            length == digits@.len(),
            length % 2 == 0,
            i <= length / 2,
            decoded@.len() == i,
            forall|j: int| 0 <= j < 2 * i ==> is_hex_digit(#[trigger] digits@[j]),
            forall|j: int| 0 <= j < i ==> decoded@[j] == hex_pair_value(digits@, j),
        decreases length / 2 - i,
    {
        let high = match hex_digit(digits[2 * i]) {
            Some(value) => value,
            None => {
                return None;
            },
        };
        let low = match hex_digit(digits[2 * i + 1]) {
            Some(value) => value,
            None => {
                return None;
            },
        };
        decoded.push(16 * high + low);
        i += 1;
    }
    Some(decoded)
}

/// The text of an address before its checksum is applied: 40 lowercase hex
/// digits.
pub open spec fn is_address_text(text: Seq<char>) -> bool {
    text.len() == 40 && all_lower_hex_digits(text)
}

/// `text` with a character in uppercase wherever the half-byte of `digest`
/// at its position is above 7.
pub open spec fn mixed_case(text: Seq<char>, digest: Seq<u8>) -> Seq<char> {
    Seq::new(
        text.len(),
        |i: int|
            if nibble(digest, i) > 7 {
                ascii_upper(text[i])
            } else {
                text[i]
            },
    )
}

/// The mixed-case checksum form of a lowercase hex text: the text is hashed
/// as it is written, all in lowercase, and the digest decides the case of
/// each character.
pub open spec fn checksummed(text: Seq<char>) -> Seq<char> {
    mixed_case(text, keccak256(encode_utf8(text)))
}

/// Puts the 40 digits of an address into the case that `digest` asks for.
pub fn apply_checksum(address_hex: &str, digest: &[u8; 32]) -> (checksum: String)
    requires
        is_address_text(address_hex@),
    ensures
        checksum@ == mixed_case(address_hex@, digest@),
{
    let bytes = address_hex.as_bytes();
    proof {
        is_ascii_chars_encode_utf8(address_hex@);
    }
    let ghost mixed = mixed_case(address_hex@, digest@);
    let mut checksum = String::new();
    let mut i: usize = 0;
    while i < 40
        invariant
            i <= 40,
            is_address_text(address_hex@),
            bytes@.len() == 40,
            forall|j: int| 0 <= j < 40 ==> bytes@[j] == address_hex@[j] as u8,
            mixed == mixed_case(address_hex@, digest@),
            checksum@ == mixed.take(i as int),
        decreases 40 - i,
    {
        let byte = bytes[i];
        let pair = digest[i / 2];
        let half: u8 = if i % 2 == 0 {
            pair >> 4
        } else {
            pair & 0x0f
        };
        assert(pair >> 4 == pair / 16) by (bit_vector);
        assert(pair & 0x0f == pair % 16) by (bit_vector);
        let shown: u8 = if half > 7 && byte >= 97 {
            byte - 32
        } else {
            byte
        };
        checksum.push(shown as char);
        i += 1;
    }
    checksum
}

/// The mixed-case checksum encoding of an address given as 40 lowercase hex
/// digits.
pub fn to_checksum_address(address_hex: &str) -> (checksum: String)
    requires
        is_address_text(address_hex@),
    ensures
        checksum@ == checksummed(address_hex@),
{
    let digest = keccak256_digest(address_hex.as_bytes());
    apply_checksum(address_hex, &digest)
}

/// Encoding is idempotent through lowercase: the checksum form of a text
/// of lowercase hex digits differs from the text in case only, so putting
/// it back into lowercase and encoding again gives the same checksum form.
pub proof fn lemma_checksum_idempotent(text: Seq<char>)
    requires
        all_lower_hex_digits(text),
    ensures
        lowercase(checksummed(text)) == text,
        checksummed(lowercase(checksummed(text))) == checksummed(text),
{
    let once = checksummed(text);
    assert forall|i: int| 0 <= i < text.len() implies ascii_lower(#[trigger] once[i])
        == text[i] by {
        assert(is_lower_hex_digit(text[i]));
    }
}

/// Decoding does not look at the case of the digits.
pub proof fn lemma_decoding_ignores_case(text: Seq<char>)
    ensures
        hex_decoded(lowercase(text)) == hex_decoded(text),
{
    let low = lowercase(text);
    assert forall|i: int| 0 <= i < text.len() implies is_hex_digit(low[i]) == is_hex_digit(
        text[i],
    ) && (is_hex_digit(text[i]) ==> hex_digit_value(low[i]) == hex_digit_value(text[i])) by {}
}

/// Encoding then decoding gives the bytes back.
pub proof fn lemma_encoding_round_trip(bytes: Seq<u8>)
    ensures
        all_lower_hex_digits(hex_encoded(bytes)),
        hex_decoded(hex_encoded(bytes)) == Some(bytes),
{
}

} // verus!
