//! Result sink: what a confirmed match looks like when it is written down.
//!
//! Appending the line to the store, under its lock, is the program's part;
//! the line itself is made here.

use vstd::prelude::*;

verus! {

/// A confirmed match as plain text.
pub struct RecordView {
    pub salt: Seq<char>,
    pub address: Seq<char>,
}

/// A confirmed match: the salt, as `0x` and 64 hex digits, and the address
/// it leads to, as `0x` and 40 digits in checksum case.
#[derive(Debug, PartialEq, Eq)]
pub struct MatchRecord {
    pub salt: String,
    pub address: String,
}

impl View for MatchRecord {
    type V = RecordView;

    open spec fn view(&self) -> RecordView {
        RecordView { salt: self.salt@, address: self.address@ }
    }
}

impl DeepView for MatchRecord {
    type V = RecordView;

    open spec fn deep_view(&self) -> RecordView {
        self@
    }
}

/// The line that records a match: the salt, ` => `, the address.
pub open spec fn record_line(record: RecordView) -> Seq<char> {
    record.salt + seq![' ', '=', '>', ' '] + record.address
}

impl MatchRecord {
    /// The line to append to the store and to show to the operator, without
    /// the line break.
    pub fn line(&self) -> (line: String)
        ensures
            line@ == record_line(self@),
    {
        let mut line = self.salt.clone();
        line.push(' ');
        line.push('=');
        line.push('>');
        line.push(' ');
        line.append(self.address.as_str());
        line
    }
}

} // verus!
