//! One opened folder: what Camel is told it can do, and what a search of it
//! answers when the server is asked.
//!
//! Every folder of this provider keeps a summary, so Camel asks it for the
//! message count and the rows; only the inbox runs the user's incoming rules,
//! which is what `FILTER_RECENT` and `FILTER_JUNK` ask for. The inbox is told
//! apart by its JMAP role rather than by its name.
//!
//! A search goes to the server when its expression translates exactly. A
//! store with no connection is not a failed search but one to run locally,
//! over the messages already on disk; any other failure is reported.

use vstd::prelude::*;

use crate::changes::texts;
use crate::connect::StoreError;
use crate::folders::{folder_view, FolderInfo, FolderRole};
use crate::message_info::{has_text, text_set};

verus! {

/// What Camel is told about an opened folder: the parts of its flags word
/// this provider sets.
#[derive(Debug, Clone, Copy, PartialEq, Eq, Structural)]
pub struct OpenFolderFlags {
    /// `CAMEL_FOLDER_HAS_SUMMARY_CAPABILITY`.
    pub has_summary_capability: bool,
    /// `CAMEL_FOLDER_FILTER_RECENT`: new mail runs the incoming filters.
    pub filter_recent: bool,
    /// `CAMEL_FOLDER_FILTER_JUNK`: new mail is tested for junk.
    pub filter_junk: bool,
}

/// The flags an opened folder of a mailbox with `role` gets.
pub open spec fn spec_open_flags(role: Option<FolderRole>) -> OpenFolderFlags {
    OpenFolderFlags {
        has_summary_capability: true,
        filter_recent: role == Some(FolderRole::Inbox),
        filter_junk: role == Some(FolderRole::Inbox),
    }
}

/// The flags `mailbox`'s folder is opened with.
pub fn open_flags(mailbox: &FolderInfo) -> (f: OpenFolderFlags)
    ensures
        f == spec_open_flags(folder_view(mailbox).role),
{
    let inbox = match mailbox.role {
        Some(FolderRole::Inbox) => true,
        _ => false,
    };
    OpenFolderFlags { has_summary_capability: true, filter_recent: inbox, filter_junk: inbox }
}

/// The ids of `ids` that a search restricted to `restrict` reports, in the
/// server's order.
pub open spec fn restricted(ids: Seq<Seq<char>>, restrict: Option<Set<Seq<char>>>) -> Seq<
    Seq<char>,
>
    decreases ids.len(),
{
    if ids.len() == 0 {
        Seq::empty()
    } else {
        let rest = restricted(ids.drop_last(), restrict);
        match restrict {
            Some(r) => if r.contains(ids.last()) {
                rest.push(ids.last())
            } else {
                rest
            },
            None => rest.push(ids.last()),
        }
    }
}

/// What a server search answers Camel: `None` — search locally instead —
/// when the store had no connection; the failure, for any other; and the
/// matching ids, in the server's order, kept to `restrict` when the caller
/// asked about some messages only.
pub fn server_answer(outcome: Result<Vec<String>, StoreError>, restrict: Option<&Vec<String>>) -> (r:
    Option<Result<Vec<String>, StoreError>>)
    ensures
        match outcome {
            Err(StoreError::Disconnected) => r is None,
            Err(e) => r == Some(Err::<Vec<String>, StoreError>(e)),
            Ok(ids) => r matches Some(Ok(v)) && texts(v@) == restricted(
                texts(ids@),
                match restrict {
                    Some(k) => Some(text_set(k@)),
                    None => None,
                },
            ),
        },
{
    let ids = match outcome {
        Err(StoreError::Disconnected) => return None,
        Err(e) => return Some(Err(e)),
        Ok(ids) => ids,
    };
    let ghost all = texts(ids@);
    let ghost set = match restrict {
        Some(k) => Some(text_set(k@)),
        None => None,
    };
    let mut kept: Vec<String> = Vec::new();
    let mut i: usize = 0;
    while i < ids.len()
        invariant
            i <= ids@.len(),
            all == texts(ids@),
            set == match restrict {
                Some(k) => Some(text_set(k@)),
                None => None,
            },
            texts(kept@) == restricted(all.take(i as int), set),
        decreases ids@.len() - i,
    {
        proof {
            assert(all.take(i + 1).drop_last() =~= all.take(i as int));
            assert(all.take(i + 1).last() == ids@[i as int]@);
        }
        let keep = match restrict {
            Some(k) => has_text(k, &ids[i]),
            None => true,
        };
        if keep {
            let ghost before = kept@;
            kept.push(ids[i].clone());
            proof {
                assert(texts(kept@) =~= texts(before).push(ids@[i as int]@));
            }
        }
        i = i + 1;
    }
    proof {
        assert(all.take(ids@.len() as int) =~= all);
    }
    Some(Ok(kept))
}

} // verus!
