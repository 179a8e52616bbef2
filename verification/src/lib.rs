//! Search for CREATE2 salts whose derived contract address starts with a
//! chosen hex prefix, optionally with the exact letter case of the
//! mixed-case checksum encoding.
//!
//! The library is the search engine: the address codec, the incremental
//! hash pipeline, salt construction, nonce enumeration and the two-stage
//! match test. Reading arguments, spreading the sweep over threads and
//! writing matches to disk are left to the program around it.
//!
//! - [`codec`]: hex text, fixed-width arrays, nonce bytes, checksum case.
//! - [`hash`]: Keccak-256 as a state that absorbs, is copied and finished.
//! - [`config`]: the search parameters and the validation of arguments.
//! - [`salt`]: header, salt and CREATE2 message; the random segment.
//! - [`search`]: evaluation of one candidate, sweeps over nonce ranges.
//! - [`sink`]: the record of a match and the line that stores it.

pub mod codec;
pub mod hash;
pub mod config;
pub mod salt;
pub mod search;
pub mod sink;

pub use config::Config;
pub use search::{cpu, Search};
pub use sink::MatchRecord;
