//! Progress events reported by ALPM transactions.
use vstd::prelude::*;
use crate::text::{chars_of, contains, contains_str, eq_str, lower_chars, lowercase};

verus! {

/// One progress event of a package transaction.
#[derive(Debug, Clone)]
pub struct AlpmProgressEvent {
    pub event_type: String,
    pub package: Option<String>,
    pub percent: Option<u8>,
    pub downloaded: Option<u64>,
    pub total: Option<u64>,
    pub message: String,
}

/// The event types that mark a finished step.
pub open spec fn is_complete_type(t: Seq<char>) -> bool {
    t == "install_complete"@ || t == "extract_complete"@ || t == "transaction_complete"@
}

/// An event of type `t` whose lower-cased message is `lower_message` reports an error.
pub open spec fn is_error_event(t: Seq<char>, lower_message: Seq<char>) -> bool {
    t == "error"@ || contains(lower_message, "error"@)
}

impl AlpmProgressEvent {
    /// Whether the event marks the completion of an install, an extraction or the whole
    /// transaction.
    pub fn is_complete(&self) -> (r: bool)
        ensures
            r == is_complete_type(self.event_type@),
    {
        let t = chars_of(self.event_type.as_str());
        eq_str(t.as_slice(), "install_complete") || eq_str(t.as_slice(), "extract_complete")
            || eq_str(t.as_slice(), "transaction_complete")
    }

    /// Whether the event reports an error, given its lower-cased message.
    pub fn is_error_with_lowercased(&self, lower_message: &[char]) -> (r: bool)
        ensures
            r == is_error_event(self.event_type@, lower_message@),
    {
        let t = chars_of(self.event_type.as_str());
        eq_str(t.as_slice(), "error") || contains_str(lower_message, "error")
    }

    /// Whether the event is of type `error` or mentions an error in any case.
    pub fn is_error(&self) -> (r: bool)
        ensures
            r == is_error_event(self.event_type@, lowercase(self.message@)),
    {
        let lower = lower_chars(self.message.as_str());
        self.is_error_with_lowercased(lower.as_slice())
    }
}

} // verus!
