//! Search parameters and their validation.

use crate::codec::{
    all_hex_digits, chars_of, decode_hex_digits, hex_decode, hex_decoded, hex_digit, is_hex_digit,
    to_fixed_20, to_fixed_32, without_prefix,
};
use vstd::prelude::*;
use vstd::slice::slice_subrange;

verus! {

/// There is no argument for the factory address.
pub const MISSING_FACTORY_ADDRESS: &'static str = "didn't get a factory_address argument.";

/// There is no argument for the calling address.
pub const MISSING_CALLING_ADDRESS: &'static str = "didn't get a calling_address argument.";

/// There is no argument for the hash of the initialization code.
pub const MISSING_INIT_CODE_HASH: &'static str = "didn't get an init_code_hash argument.";

/// There is no argument for the target prefix.
pub const MISSING_TARGET_START: &'static str = "didn't get an target_start argument.";

/// The target prefix does not begin with `0x`.
pub const TARGET_START_WITHOUT_MARKER: &'static str = "target_start argument must start with 0x.";

/// The factory address is no hex text.
pub const UNDECODABLE_FACTORY_ADDRESS: &'static str = "could not decode factory address argument.";

/// The calling address is no hex text.
pub const UNDECODABLE_CALLING_ADDRESS: &'static str = "could not decode calling address argument.";

/// The hash of the initialization code is no hex text.
pub const UNDECODABLE_INIT_CODE_HASH: &'static str =
    "could not decode initialization code hash argument.";

/// The factory address does not have 20 bytes.
pub const FACTORY_ADDRESS_LENGTH: &'static str = "invalid length for factory address argument.";

/// The calling address does not have 20 bytes.
pub const CALLING_ADDRESS_LENGTH: &'static str = "invalid length for calling address argument.";

/// The hash of the initialization code does not have 32 bytes.
pub const INIT_CODE_HASH_LENGTH: &'static str =
    "invalid length for initialization code hash argument.";

/// The device is no decimal number below 256.
pub const INVALID_GPU_DEVICE: &'static str = "invalid gpu device value.";

/// The target prefix holds, after `0x`, a character that is no hex digit.
pub const TARGET_START_NOT_HEX: &'static str =
    "invalid target address start provided, not hex string.";

/// The target prefix has an odd number of hex digits, so that they do not
/// make up whole bytes.
pub const TARGET_START_ODD_LENGTH: &'static str =
    "invalid target address start provided, odd number of hex digits.";

/// The device number that stands for a search on the CPU.
pub const CPU_DEVICE: u8 = 255;

/// `text` begins with the two characters `0x`.
pub open spec fn has_marker(text: Seq<char>) -> bool {
    text.len() >= 2 && text[0] == '0' && text[1] == 'x'
}

/// `text` without a leading `0x`, if it has one.
pub open spec fn unmarked(text: Seq<char>) -> Seq<char> {
    if has_marker(text) {
        text.skip(2)
    } else {
        text
    }
}

/// A target prefix that the search accepts: `0x`, then hex digits of either
/// case, an even number of them.
pub open spec fn well_formed_target(text: Seq<char>) -> bool {
    has_marker(text) && all_hex_digits(text.skip(2)) && text.skip(2).len() % 2 == 0
}

/// The bytes that the digits of a well-formed target stand for.
pub open spec fn target_bytes(text: Seq<char>) -> Seq<u8> {
    hex_decoded(text.skip(2)).unwrap()
}

/// `c` is one of `0..9`.
pub open spec fn is_decimal_digit(c: char) -> bool {
    '0' <= c && c <= '9'
}

/// Every character of `text` is a decimal digit.
pub open spec fn all_decimal_digits(text: Seq<char>) -> bool {
    forall|i: int| 0 <= i < text.len() ==> is_decimal_digit(#[trigger] text[i])
}

/// The number that decimal digits spell.
pub open spec fn decimal_value(digits: Seq<char>) -> nat
    decreases digits.len(),
{
    if digits.len() == 0 {
        0
    } else {
        (10 * decimal_value(digits.drop_last()) + (digits.last() as int - '0' as int)) as nat
    }
}

/// `text` without a leading `+`, if it has one.
pub open spec fn unsigned_digits(text: Seq<char>) -> Seq<char> {
    if text.len() > 0 && text[0] == '+' {
        text.skip(1)
    } else {
        text
    }
}

/// The number below 256 that a decimal text stands for: an optional `+`,
/// then at least one digit and nothing else. Leading zeros are allowed.
pub open spec fn decimal_u8(text: Seq<char>) -> Option<u8> {
    let digits = unsigned_digits(text);
    if digits.len() > 0 && all_decimal_digits(digits) && decimal_value(digits) <= 255 {
        Some(decimal_value(digits) as u8)
    } else {
        None
    }
}

/// The text that selects the device: the sixth argument, or `255` when there
/// is none.
pub open spec fn device_text(args: Seq<Seq<char>>) -> Seq<char> {
    if args.len() > 5 {
        args[5]
    } else {
        seq!['2', '5', '5']
    }
}

/// Why a list of arguments is turned down, if it is. The first argument is
/// the program's name; then come the factory address, the calling address,
/// the hash of the initialization code, the target prefix and, optionally,
/// the device. The checks are made in the order written here and the first
/// that fails decides.
pub open spec fn rejection(args: Seq<Seq<char>>) -> Option<&'static str> {
    if args.len() < 2 {
        Some(MISSING_FACTORY_ADDRESS)
    } else if args.len() < 3 {
        Some(MISSING_CALLING_ADDRESS)
    } else if args.len() < 4 {
        Some(MISSING_INIT_CODE_HASH)
    } else if args.len() < 5 {
        Some(MISSING_TARGET_START)
    } else if !has_marker(args[4]) {
        Some(TARGET_START_WITHOUT_MARKER)
    } else if hex_decoded(unmarked(args[1])) is None {
        Some(UNDECODABLE_FACTORY_ADDRESS)
    } else if hex_decoded(unmarked(args[2])) is None {
        Some(UNDECODABLE_CALLING_ADDRESS)
    } else if hex_decoded(unmarked(args[3])) is None {
        Some(UNDECODABLE_INIT_CODE_HASH)
    } else if hex_decoded(unmarked(args[1])).unwrap().len() != 20 {
        Some(FACTORY_ADDRESS_LENGTH)
    } else if hex_decoded(unmarked(args[2])).unwrap().len() != 20 {
        Some(CALLING_ADDRESS_LENGTH)
    } else if hex_decoded(unmarked(args[3])).unwrap().len() != 32 {
        Some(INIT_CODE_HASH_LENGTH)
    } else if decimal_u8(device_text(args)) is None {
        Some(INVALID_GPU_DEVICE)
    } else if !all_hex_digits(args[4].skip(2)) {
        Some(TARGET_START_NOT_HEX)
    } else if args[4].skip(2).len() % 2 != 0 {
        Some(TARGET_START_ODD_LENGTH)
    } else {
        None
    }
}

/// What a configuration holds, as plain values.
pub struct ConfigView {
    pub factory_address: Seq<u8>,
    pub calling_address: Seq<u8>,
    pub init_code_hash: Seq<u8>,
    pub gpu_device: u8,
    pub target_start_string: Seq<char>,
}

/// The configuration that a list of arguments stands for, once nothing in
/// it is turned down.
pub open spec fn accepted(args: Seq<Seq<char>>) -> ConfigView {
    ConfigView {
        factory_address: hex_decoded(unmarked(args[1])).unwrap(),
        calling_address: hex_decoded(unmarked(args[2])).unwrap(),
        init_code_hash: hex_decoded(unmarked(args[3])).unwrap(),
        gpu_device: decimal_u8(device_text(args)).unwrap(),
        target_start_string: args[4],
    }
}

/// The parameters of a search: the address of the contract that will call
/// CREATE2, the address of the caller of that contract, the Keccak-256 hash
/// of the initialization code, the device to search on, and the prefix that
/// the derived address must start with.
#[derive(Debug)]
pub struct Config {
    pub factory_address: [u8; 20],
    pub calling_address: [u8; 20],
    pub init_code_hash: [u8; 32],
    pub gpu_device: u8,
    pub target_start_string: String,
}

impl View for Config {
    type V = ConfigView;

    open spec fn view(&self) -> ConfigView {
        ConfigView {
            factory_address: self.factory_address@,
            calling_address: self.calling_address@,
            init_code_hash: self.init_code_hash@,
            gpu_device: self.gpu_device,
            target_start_string: self.target_start_string@,
        }
    }
}

/// Whether `text` begins with `0x`.
pub fn starts_with_marker(text: &str) -> (marked: bool)
    ensures
        marked == has_marker(text@),
{
    text.unicode_len() >= 2 && text.get_char(0) == '0' && text.get_char(1) == 'x'
}

/// A prefix of decimal digits spells no more than the whole.
proof fn lemma_decimal_prefix(digits: Seq<char>, k: int)
    requires
        all_decimal_digits(digits),
        0 <= k <= digits.len(),
    ensures
        decimal_value(digits.take(k)) <= decimal_value(digits),
    decreases digits.len(),
{
    if k == digits.len() {
        assert(digits.take(k) =~= digits);
    } else {
        let front = digits.drop_last();
        assert(front.take(k) =~= digits.take(k));
        lemma_decimal_prefix(front, k);
    }
}

/// Reads a decimal number below 256.
pub fn parse_u8(text: &[char]) -> (number: Option<u8>)
    ensures
        number == decimal_u8(text@),
{
    let length = text.len();
    let start: usize = if length > 0 && text[0] == '+' {
        1
    } else {
        0
    };
    let ghost digits = unsigned_digits(text@);
    if start == length {
        return None;
    }
    let mut value: u16 = 0;
    let mut i: usize = start;
    while i < length
        invariant
            start <= i <= length,
            length == text@.len(),
            digits == unsigned_digits(text@),
            digits == text@.skip(start as int),
            all_decimal_digits(digits.take(i - start)),
            value == decimal_value(digits.take(i - start)),
            value <= 255,
        decreases length - i,
    {
        let c = text[i];
        let ghost before = digits.take(i - start);
        let ghost after = digits.take(i - start + 1);
        assert(after.drop_last() =~= before);
        assert(after.last() == c);
        if !('0' <= c && c <= '9') {
            return None;
        }
        value = value * 10 + (c as u8 - 48) as u16;
        if value > 255 {
            proof {
                if all_decimal_digits(digits) {
                    lemma_decimal_prefix(digits, i - start + 1);
                }
            }
            return None;
        }
        i += 1;
    }
    assert(digits.take(length - start) =~= digits);
    Some(value as u8)
}

/// Why a target prefix is turned down, if it is.
pub open spec fn target_rejection(text: Seq<char>) -> Option<&'static str> {
    if !has_marker(text) {
        Some(TARGET_START_WITHOUT_MARKER)
    } else if !all_hex_digits(text.skip(2)) {
        Some(TARGET_START_NOT_HEX)
    } else if text.skip(2).len() % 2 != 0 {
        Some(TARGET_START_ODD_LENGTH)
    } else {
        None
    }
}

/// Whether every character is a hex digit.
pub fn only_hex_digits(digits: &[char]) -> (only: bool)
    ensures
        only == all_hex_digits(digits@),
{
    let mut i: usize = 0;
    while i < digits.len()
        invariant
            i <= digits.len(),
            forall|j: int| 0 <= j < i ==> is_hex_digit(#[trigger] digits@[j]),
        decreases digits.len() - i,
    {
        if hex_digit(digits[i]).is_none() {
            return false;
        }
        i += 1;
    }
    true
}

/// Checks a target prefix and reads the bytes that its digits stand for.
pub fn decode_target(target: &str) -> (decoded: Result<Vec<u8>, &'static str>)
    ensures
        match decoded {
            Ok(bytes) => well_formed_target(target@) && bytes@ == target_bytes(target@),
            Err(message) => target_rejection(target@) == Some(message),
        },
{
    let chars = chars_of(target);
    let length = chars.len();
    if !(length >= 2 && chars[0] == '0' && chars[1] == 'x') {
        return Err(TARGET_START_WITHOUT_MARKER);
    }
    let digits = slice_subrange(chars.as_slice(), 2, length);
    match decode_hex_digits(digits) {
        Some(bytes) => Ok(bytes),
        None => {
            if only_hex_digits(digits) {
                Err(TARGET_START_ODD_LENGTH)
            } else {
                Err(TARGET_START_NOT_HEX)
            }
        },
    }
}

impl Config {
    /// Validates the arguments of the program and builds the configuration
    /// from them. `args` starts with the program's name.
    pub fn new(args: Vec<String>) -> (config: Result<Config, &'static str>)
        ensures
            match config {
                Ok(c) => rejection(args.deep_view()) is None && c@ == accepted(args.deep_view()),
                Err(message) => rejection(args.deep_view()) == Some(message),
            },
    {
        if args.len() < 2 {
            return Err(MISSING_FACTORY_ADDRESS);
        }
        if args.len() < 3 {
            return Err(MISSING_CALLING_ADDRESS);
        }
        if args.len() < 4 {
            return Err(MISSING_INIT_CODE_HASH);
        }
        if args.len() < 5 {
            return Err(MISSING_TARGET_START);
        }
        let mut factory_address_string = args[1].clone();
        let mut calling_address_string = args[2].clone();
        let mut init_code_hash_string = args[3].clone();
        let target_start_string = args[4].clone();
        let gpu_device_chars: Vec<char> = if args.len() > 5 {
            chars_of(args[5].as_str())
        } else {
            vec!['2', '5', '5']
        };

        if starts_with_marker(factory_address_string.as_str()) {
            factory_address_string = without_prefix(factory_address_string);
        }
        if starts_with_marker(calling_address_string.as_str()) {
            calling_address_string = without_prefix(calling_address_string);
        }
        if starts_with_marker(init_code_hash_string.as_str()) {
            init_code_hash_string = without_prefix(init_code_hash_string);
        }
        if !starts_with_marker(target_start_string.as_str()) {
            return Err(TARGET_START_WITHOUT_MARKER);
        }

        let factory_address_vec: Vec<u8> = match hex_decode(factory_address_string.as_str()) {
            Ok(t) => t,
            Err(_) => {
                return Err(UNDECODABLE_FACTORY_ADDRESS);
            },
        };
        let calling_address_vec: Vec<u8> = match hex_decode(calling_address_string.as_str()) {
            Ok(t) => t,
            Err(_) => {
                return Err(UNDECODABLE_CALLING_ADDRESS);
            },
        };
        let init_code_hash_vec: Vec<u8> = match hex_decode(init_code_hash_string.as_str()) {
            Ok(t) => t,
            Err(_) => {
                return Err(UNDECODABLE_INIT_CODE_HASH);
            },
        };

        if factory_address_vec.len() != 20 {
            return Err(FACTORY_ADDRESS_LENGTH);
        }
        if calling_address_vec.len() != 20 {
            return Err(CALLING_ADDRESS_LENGTH);
        }
        if init_code_hash_vec.len() != 32 {
            return Err(INIT_CODE_HASH_LENGTH);
        }
        assert(factory_address_vec@.subrange(0, 20) =~= factory_address_vec@);
        assert(calling_address_vec@.subrange(0, 20) =~= calling_address_vec@);
        assert(init_code_hash_vec@.subrange(0, 32) =~= init_code_hash_vec@);
        let factory_address = to_fixed_20(factory_address_vec);
        let calling_address = to_fixed_20(calling_address_vec);
        let init_code_hash = to_fixed_32(init_code_hash_vec);

        let gpu_device: u8 = match parse_u8(gpu_device_chars.as_slice()) {
            Some(t) => t,
            None => {
                return Err(INVALID_GPU_DEVICE);
            },
        };

        match decode_target(target_start_string.as_str()) {
            Ok(_) => {},
            Err(message) => {
                return Err(message);
            },
        }
        Ok(
            Config {
                factory_address,
                calling_address,
                init_code_hash,
                gpu_device,
                target_start_string,
            },
        )
    }
}

} // verus!
