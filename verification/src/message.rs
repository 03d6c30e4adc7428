//! Handing Camel one message's bytes: out of the cache when a copy is there,
//! from the server otherwise.

use vstd::prelude::*;

use crate::connect::StoreError;

verus! {

/// The uid a message is asked for by, or [`StoreError::NoMessage`] for none
/// or the empty one — the missing message it describes, reported rather than
/// asserted.
pub fn requested_uid(uid: Option<String>) -> (r: Result<String, StoreError>)
    ensures
        match uid {
            Some(u) => if u@.len() > 0 {
                r == Ok::<String, StoreError>(u)
            } else {
                r matches Err(StoreError::NoMessage(e)) && e@.len() == 0
            },
            None => r matches Err(StoreError::NoMessage(e)) && e@.len() == 0,
        },
{
    match uid {
        Some(u) => if u.as_str().is_empty() {
            Err(StoreError::NoMessage(String::new()))
        } else {
            Ok(u)
        },
        None => Err(StoreError::NoMessage(String::new())),
    }
}

/// The length Camel's parser is told a message has: its own length, or the
/// largest a signed length can say. Saturating leaves a truncated parse,
/// which fails loudly, rather than a negative length, which Camel would read
/// as "to the end of the buffer" and walk off it.
pub fn parse_length(len: usize) -> (n: isize)
    ensures
        len <= isize::MAX ==> n == len,
        len > isize::MAX ==> n == isize::MAX,
{
    if len > isize::MAX as usize {
        isize::MAX
    } else {
        len as isize
    }
}

} // verus!
