//! The message a submitter sends, and its length rule.
//!
//! A message body is limited to 20 printed lines of 48 columns, i.e. 960
//! characters; longer bodies are rejected before anything else happens.

use crate::clock::LocalInstant;
use vstd::prelude::*;
use vstd::string::StrSliceExecFns;

verus! {

/// The longest accepted message body, in characters (20 lines x 48 columns).
pub const MAX_BODY_CHARS: usize = 960;

/// One accepted fax message, ready to relay to the printer side.
#[derive(Debug, Clone)]
pub struct FaxMessage {
    /// Local submission time.
    pub time: LocalInstant,
    /// The message body.
    pub message: String,
    /// The submitter's display name.
    pub from: String,
    /// The network address the submission came from.
    pub ip: String,
}

impl FaxMessage {
    /// A well-formed message: a plausible timestamp and a body within the
    /// length limit.
    pub open spec fn wf(self) -> bool {
        &&& self.time.wf()
        &&& self.message@.len() <= MAX_BODY_CHARS
    }
}

/// Whether `body` fits the 960-character limit.
pub fn body_within_limit(body: &str) -> (b: bool)
    ensures
        b == (body@.len() <= MAX_BODY_CHARS),
{
    body.unicode_len() <= MAX_BODY_CHARS
}

} // verus!
