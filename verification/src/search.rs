//! Match evaluator and nonce enumerator: the search itself.

use crate::codec::{
    chars_of, checksummed, hex_decoded, hex_encode, hex_encoded, is_hex_digit,
    is_lower_hex_digit, lemma_checksum_idempotent, lemma_decoding_ignores_case,
    lemma_encoding_round_trip, lowercase, six_bytes, to_checksum_address, u64_to_fixed_6,
};
use crate::config::{
    decode_target, has_marker, target_bytes, target_rejection, well_formed_target, Config,
    ConfigView,
};
use crate::hash::{keccak256, HashState};
use crate::salt::{
    address_of_digest, create2_address, create2_message, full_salt, header, header_bytes,
    lemma_message_layout, random_segment, salt_bytes, salt_text,
};
use crate::sink::{record_line, MatchRecord, RecordView};
use vstd::prelude::*;

verus! {

/// The number of nonces: they are the integers below 2^48.
pub const NONCE_SPACE: u64 = 0x1_0000_0000_0000;

/// An address written out with its checksum: `0x`, then its 40 hex digits
/// in mixed case.
pub open spec fn address_text(address: Seq<u8>) -> Seq<char> {
    seq!['0', 'x'] + checksummed(hex_encoded(address))
}

/// The first test: the address begins with the bytes that the digits of the
/// target stand for.
pub open spec fn passes_raw_test(target: Seq<char>, address: Seq<u8>) -> bool {
    target_bytes(target).is_prefix_of(address)
}

/// The second test: the address in its checksum form begins with the target
/// exactly as it was written, case included.
pub open spec fn passes_exact_test(target: Seq<char>, address: Seq<u8>) -> bool {
    target.is_prefix_of(address_text(address))
}

/// The salt of the candidate with the given nonce.
pub open spec fn candidate_salt(config: ConfigView, segment: Seq<u8>, nonce: Seq<u8>) -> Seq<u8> {
    salt_bytes(config.calling_address, segment, nonce)
}

/// The address that the candidate with the given nonce leads to.
pub open spec fn candidate_address(config: ConfigView, segment: Seq<u8>, nonce: Seq<u8>) -> Seq<
    u8,
> {
    create2_address(
        config.factory_address,
        candidate_salt(config, segment, nonce),
        config.init_code_hash,
    )
}

/// What the evaluation of one candidate yields: its record if the address
/// passes both tests, nothing otherwise.
pub open spec fn outcome(config: ConfigView, segment: Seq<u8>, nonce: Seq<u8>) -> Option<
    RecordView,
> {
    let address = candidate_address(config, segment, nonce);
    if passes_raw_test(config.target_start_string, address) && passes_exact_test(
        config.target_start_string,
        address,
    ) {
        Some(
            RecordView {
                salt: salt_text(candidate_salt(config, segment, nonce)),
                address: address_text(address),
            },
        )
    } else {
        None
    }
}

/// The records of the nonces from `first` up to, not including, `last`, in
/// the order of the nonces.
pub open spec fn sweep_outcome(config: ConfigView, segment: Seq<u8>, first: int, last: int) -> Seq<
    RecordView,
>
    decreases last - first,
{
    if last <= first {
        Seq::empty()
    } else {
        let earlier = sweep_outcome(config, segment, first, last - 1);
        match outcome(config, segment, six_bytes((last - 1) as u64)) {
            Some(record) => earlier.push(record),
            None => earlier,
        }
    }
}

/// The address of a candidate is the last 20 bytes of the digest of the
/// control byte, the factory address, the calling address, the random
/// segment, the nonce and the hash of the initialization code, in this
/// order.
pub proof fn lemma_candidate_address(config: ConfigView, segment: Seq<u8>, nonce: Seq<u8>)
    ensures
        candidate_address(config, segment, nonce) == keccak256(
            seq![0xffu8] + config.factory_address + config.calling_address + segment + nonce
                + config.init_code_hash,
        ).subrange(12, 32),
{
    assert(seq![0xffu8] + config.factory_address + config.calling_address + segment + nonce
        + config.init_code_hash =~= create2_message(
        config.factory_address,
        candidate_salt(config, segment, nonce),
        config.init_code_hash,
    ));
}

/// What is written down has a fixed shape. The text of a 32-byte salt is
/// `0x` and 64 lowercase hex digits; the text of a 20-byte address is `0x`
/// and 40 hex digits that spell the address whatever their case; and their
/// line has 112 characters, none of them a line break.
pub proof fn lemma_record_format(salt: Seq<u8>, address: Seq<u8>)
    requires
        salt.len() == 32,
        address.len() == 20,
    ensures
        salt_text(salt).len() == 66,
        has_marker(salt_text(salt)),
        salt_text(salt).skip(2) == hex_encoded(salt),
        hex_decoded(salt_text(salt).skip(2)) == Some(salt),
        address_text(address).len() == 42,
        has_marker(address_text(address)),
        hex_decoded(address_text(address).skip(2)) == Some(address),
        record_line(RecordView { salt: salt_text(salt), address: address_text(address) }).len()
            == 112,
        forall|i: int|
            0 <= i < 112 ==> (#[trigger] record_line(
                RecordView { salt: salt_text(salt), address: address_text(address) },
            )[i]) != '\n',
{
    let plain = hex_encoded(address);
    let mixed = checksummed(plain);
    lemma_encoding_round_trip(salt);
    lemma_encoding_round_trip(address);
    lemma_checksum_idempotent(plain);
    lemma_decoding_ignores_case(mixed);
    assert(address_text(address).skip(2) =~= mixed);
    assert forall|i: int| 0 <= i < mixed.len() implies is_hex_digit(#[trigger] mixed[i]) by {
        assert(is_lower_hex_digit(plain[i]));
    }
}

/// The raw test does not look at the case of the target's digits.
pub proof fn lemma_raw_test_ignores_case(target: Seq<char>, address: Seq<u8>)
    requires
        has_marker(target),
    ensures
        has_marker(lowercase(target)),
        well_formed_target(lowercase(target)) == well_formed_target(target),
        passes_raw_test(lowercase(target), address) == passes_raw_test(target, address),
{
    let digits = target.skip(2);
    assert(lowercase(target).skip(2) =~= lowercase(digits));
    lemma_decoding_ignores_case(digits);
}

/// The raw test never discards what the exact test would confirm: an address
/// whose checksum form begins with a well-formed target also begins with
/// the target's bytes.
pub proof fn lemma_exact_test_implies_raw_test(target: Seq<char>, address: Seq<u8>)
    requires
        well_formed_target(target),
        passes_exact_test(target, address),
    ensures
        passes_raw_test(target, address),
{
}

/// A sweep can be cut anywhere: the records of a range are those of its
/// lower part followed by those of its upper part.
pub proof fn lemma_sweep_splits(
    config: ConfigView,
    segment: Seq<u8>,
    first: int,
    middle: int,
    last: int,
)
    requires
        first <= middle <= last,
    ensures
        sweep_outcome(config, segment, first, last) == sweep_outcome(
            config,
            segment,
            first,
            middle,
        ) + sweep_outcome(config, segment, middle, last),
    decreases last - middle,
{
    if middle < last {
        lemma_sweep_splits(config, segment, first, middle, last - 1);
    }
}

/// A sweep finds every match in its range and nothing else: a record is
/// among those of a range exactly if it is the outcome of one of its nonces.
pub proof fn lemma_sweep_finds_all(
    config: ConfigView,
    segment: Seq<u8>,
    first: int,
    last: int,
    record: RecordView,
)
    ensures
        sweep_outcome(config, segment, first, last).contains(record) <==> exists|x: int|
            first <= x < last && #[trigger] outcome(config, segment, six_bytes(x as u64)) == Some(
                record,
            ),
    decreases last - first,
{
    if first < last {
        lemma_sweep_finds_all(config, segment, first, last - 1, record);
        let all = sweep_outcome(config, segment, first, last);
        let earlier = sweep_outcome(config, segment, first, last - 1);
        if exists|x: int|
            first <= x < last && #[trigger] outcome(config, segment, six_bytes(x as u64)) == Some(
                record,
            ) {
            let x = choose|x: int|
                first <= x < last && #[trigger] outcome(config, segment, six_bytes(x as u64))
                    == Some(record);
            if x == last - 1 {
                assert(all.last() == record);
            } else {
                let i = choose|i: int| 0 <= i < earlier.len() && earlier[i] == record;
                assert(all[i] == record);
            }
        }
    }
}

/// Whether `address` begins with the bytes of `target`.
pub fn raw_prefix_matches(address: &[u8], target: &[u8]) -> (matches: bool)
    ensures
        matches == target@.is_prefix_of(address@),
{
    if target.len() > address.len() {
        return false;
    }
    let mut i: usize = 0;
    while i < target.len()
        invariant
            i <= target.len() <= address.len(),
            forall|j: int| 0 <= j < i ==> target@[j] == address@[j],
        decreases target.len() - i,
    {
        if target[i] != address[i] {
            return false;
        }
        i += 1;
    }
    true
}

/// Whether `text` begins with `target`, character for character.
pub fn exact_prefix_matches(text: &str, target: &str) -> (matches: bool)
    ensures
        matches == target@.is_prefix_of(text@),
{
    let text_chars = chars_of(text);
    let target_chars = chars_of(target);
    if target_chars.len() > text_chars.len() {
        return false;
    }
    let mut i: usize = 0;
    while i < target_chars.len()
        invariant
            i <= target_chars.len() <= text_chars.len(),
            text_chars@ == text@,
            target_chars@ == target@,
            forall|j: int| 0 <= j < i ==> target@[j] == text@[j],
        decreases target_chars.len() - i,
    {
        if target_chars[i] != text_chars[i] {
            return false;
        }
        i += 1;
    }
    true
}

/// The checksum form of an address, with `0x` in front.
pub fn checksum_address(address: &[u8; 20]) -> (text: String)
    ensures
        text@ == address_text(address@),
{
    let digits = hex_encode(address.as_slice());
    proof {
        lemma_encoding_round_trip(address@);
    }
    let mixed = to_checksum_address(digits.as_str());
    let mut text = String::new();
    text.push('0');
    text.push('x');
    text.append(mixed.as_str());
    text
}

/// One sweep in the making: the parameters, the random segment of this
/// sweep, the decoded target and the hash state that every candidate starts
/// from.
pub struct Search {
    config: Config,
    segment: [u8; 6],
    target: Vec<u8>,
    header: HashState,
}

impl Search {
    #[verifier::type_invariant]
    spec fn consistent(self) -> bool {
        &&& well_formed_target(self.config.target_start_string@)
        &&& self.target@ == target_bytes(self.config.target_start_string@)
        &&& self.header@ == header_bytes(
            self.config.factory_address@,
            self.config.calling_address@,
            self.segment@,
        )
    }

    /// The parameters of the search.
    pub closed spec fn config(self) -> ConfigView {
        self.config@
    }

    /// The random segment of this sweep.
    pub closed spec fn segment(self) -> Seq<u8> {
        self.segment@
    }

    /// Prepares a sweep with the given segment: checks and decodes the
    /// target and hashes the header.
    pub fn new(config: Config, segment: [u8; 6]) -> (search: Result<Search, &'static str>)
        ensures
            match search {
                Ok(s) => well_formed_target(config@.target_start_string) && s.config() == config@
                    && s.segment() == segment@,
                Err(message) => target_rejection(config@.target_start_string) == Some(message),
            },
    {
        let target = match decode_target(config.target_start_string.as_str()) {
            Ok(bytes) => bytes,
            Err(message) => {
                return Err(message);
            },
        };
        let header_array = header(&config.factory_address, &config.calling_address, &segment);
        let mut header = HashState::new();
        header.absorb(header_array.as_slice());
        Ok(Search { config, segment, target, header })
    }

    /// Prepares a sweep with a segment drawn at random.
    pub fn with_random_segment(config: Config) -> (search: Result<Search, &'static str>)
        ensures
            match search {
                Ok(s) => well_formed_target(config@.target_start_string) && s.config() == config@
                    && s.segment().len() == 6,
                Err(message) => target_rejection(config@.target_start_string) == Some(message),
            },
    {
        Search::new(config, random_segment())
    }

    /// The random segment of this sweep.
    pub fn segment_bytes(&self) -> (segment: [u8; 6])
        ensures
            segment@ == self.segment(),
    {
        self.segment
    }

    /// The address that the candidate with this nonce leads to.
    pub fn derive_address(&self, nonce: &[u8; 6]) -> (address: [u8; 20])
        ensures
            address@ == candidate_address(self.config(), self.segment(), nonce@),
    {
        proof {
            use_type_invariant(self);
            lemma_message_layout(
                self.config.factory_address@,
                self.config.calling_address@,
                self.segment@,
                nonce@,
                self.config.init_code_hash@,
            );
        }
        let digest = self.header.digest_with(
            nonce.as_slice(),
            self.config.init_code_hash.as_slice(),
        );
        address_of_digest(&digest)
    }

    /// Evaluates one candidate: derives its address, applies the raw test
    /// and, only if that passes, the exact test on the checksum form.
    pub fn evaluate(&self, nonce: &[u8; 6]) -> (found: Option<MatchRecord>)
        ensures
            match found {
                Some(record) => outcome(self.config(), self.segment(), nonce@) == Some(record@),
                None => outcome(self.config(), self.segment(), nonce@) is None,
            },
    {
        proof {
            use_type_invariant(self);
        }
        let address = self.derive_address(nonce);
        if !raw_prefix_matches(address.as_slice(), self.target.as_slice()) {
            return None;
        }
        let text = checksum_address(&address);
        if !exact_prefix_matches(text.as_str(), self.config.target_start_string.as_str()) {
            return None;
        }
        let salt = full_salt(&self.config.calling_address, &self.segment, nonce);
        Some(MatchRecord { salt, address: text })
    }

    /// Evaluates the nonces from `first` up to, not including, `last`, one
    /// after the other, and collects the records of those that match.
    pub fn sweep(&self, first: u64, last: u64) -> (found: Vec<MatchRecord>)
        requires
            last <= NONCE_SPACE,
        ensures
            found.deep_view() == sweep_outcome(
                self.config(),
                self.segment(),
                first as int,
                last as int,
            ),
    {
        let mut found: Vec<MatchRecord> = Vec::new();
        if last <= first {
            return found;
        }
        let mut x: u64 = first;
        while x < last
            invariant
                first <= x <= last,
                found.deep_view() == sweep_outcome(
                    self.config(),
                    self.segment(),
                    first as int,
                    x as int,
                ),
            decreases last - x,
        {
            let nonce = u64_to_fixed_6(&x);
            if let Some(record) = self.evaluate(&nonce) {
                found.push(record);
            }
            x += 1;
        }
        found
    }
}

/// One pass of the search on the CPU: draws a random segment, hashes the
/// header once and evaluates the first `attempts` nonces.
pub fn cpu(config: Config, attempts: u64) -> (found: Result<Vec<MatchRecord>, &'static str>)
    requires
        attempts <= NONCE_SPACE,
    ensures
        match found {
            Ok(records) => well_formed_target(config@.target_start_string) && exists|
                segment: Seq<u8>,
            |
                segment.len() == 6 && records.deep_view() == #[trigger] sweep_outcome(
                    config@,
                    segment,
                    0,
                    attempts as int,
                ),
            Err(message) => target_rejection(config@.target_start_string) == Some(message),
        },
{
    let search = match Search::with_random_segment(config) {
        Ok(search) => search,
        Err(message) => {
            return Err(message);
        },
    };
    let records = search.sweep(0, attempts);
    Ok(records)
}

} // verus!
