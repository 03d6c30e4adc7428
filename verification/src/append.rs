//! Putting a message Camel hands over into a mailbox — a draft being saved,
//! a message copied in from another account.
//!
//! The message is uploaded and filed with `Email/import` (RFC 8621 §4.8),
//! carrying what the folder it came from knew about it and the message does
//! not say: the flags the user had set on it, and when it arrived.

use vstd::prelude::*;

use crate::message_info::{text_set, Keywords, KeywordsView, MessageFlags, MessageRow};
use crate::synchronize::{no_flags, row_keywords, spec_row_keywords};

verus! {

/// When a message arrived, as the import is told it: Camel's zero is a date
/// nobody recorded, which the server is left to fill in itself.
pub fn received_at(date_received: i64) -> (r: Option<i64>)
    ensures
        date_received == 0 ==> r is None,
        date_received != 0 ==> r == Some(date_received),
{
    if date_received == 0 {
        None
    } else {
        Some(date_received)
    }
}

/// The keywords a message is imported with: what its row claimed, or none
/// at all for a message nothing is known about.
pub fn import_keywords(row: Option<&MessageRow>) -> (k: Keywords)
    ensures
        match row {
            Some(r) => k@ == spec_row_keywords(r@),
            None => k@ == (KeywordsView { flags: no_flags(), tags: Set::empty() }),
        },
{
    match row {
        Some(r) => row_keywords(r),
        None => {
            let k = Keywords {
                flags: MessageFlags {
                    seen: false,
                    answered: false,
                    flagged: false,
                    draft: false,
                    forwarded: false,
                    junk: false,
                    not_junk: false,
                    attachments: false,
                },
                tags: Vec::new(),
            };
            proof {
                assert(text_set(k.tags@) =~= Set::empty());
            }
            k
        },
    }
}

} // verus!
