//! Log records: what a native contract hands to the host's log sink.

use vstd::prelude::*;
use crate::primitives::{Address, U256};

verus! {

/// One record of the event log.
#[derive(Clone, Debug, PartialEq, Eq)]
pub struct LogRecord {
    /// The contract that emitted the record.
    pub address: Address,
    /// The signature hash of the event, then its indexed parameters.
    pub topics: Vec<U256>,
    /// The encoding of the parameters that are not indexed.
    pub data: Vec<u8>,
}

/// A log record as plain values.
pub struct LogModel {
    pub address: Seq<u8>,
    pub topics: Seq<Seq<u8>>,
    pub data: Seq<u8>,
}

/// The bytes of each word of a list.
pub open spec fn words_view(words: Seq<U256>) -> Seq<Seq<u8>> {
    Seq::new(words.len(), |i: int| words[i]@)
}

impl View for LogRecord {
    type V = LogModel;

    open spec fn view(&self) -> LogModel {
        LogModel { address: self.address@, topics: words_view(self.topics@), data: self.data@ }
    }
}

/// The records of a log as plain values.
pub open spec fn logs_view(logs: Seq<LogRecord>) -> Seq<LogModel> {
    Seq::new(logs.len(), |i: int| logs[i]@)
}

} // verus!
