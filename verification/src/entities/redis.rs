//! Bodies of the contexts that travel by reference on the message bus.
//!
//! A large payload is stored under a fresh key and only that pointer travels
//! inside the event; these are the payloads.
use vstd::prelude::*;
use super::embedding::EntryRef;
use super::PrivacyControlFlag;

verus! {

/// The full text that the embedding index should (re)embed for an entry.
#[derive(Debug, Clone)]
pub struct EntryContent {
    pub reference: EntryRef,
    pub privacy: PrivacyControlFlag,
    /// Full text of the source entry to be embedded.
    pub content: String,
}

/// The text excerpt the segment-tree scorer reads for an appended message.
#[derive(Debug, Clone)]
pub struct MessageExcerpt {
    /// Text of the appended message, for scoring.
    pub current_excerpt: String,
}

} // verus!
