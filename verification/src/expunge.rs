//! Carrying out the deletions the user has made.
//!
//! `DELETED` is a bit of Camel's own — JMAP has no deleted keyword — so
//! pressing Delete marks a row and reaches no server. The expunge is the
//! request that the marked messages stop being here. Its work list is the
//! bit, over the whole summary: a row marked before the last synchronisation
//! is not on Camel's changed list while still being exactly what an expunge
//! is for.
//!
//! Every marked row is attempted and the first failure is reported when the
//! walk is done. A message another client destroyed is not a failure: it is
//! already gone, which is what the expunge wanted, and the row goes with it —
//! now, not at the next listing, so the message list stops offering it.

use vstd::prelude::*;

use crate::changes::{texts, Changes, ChangesView};
use crate::connect::StoreError;
use crate::message_info::{RowView, DELETED};
use crate::summary::{has_uid, Summary};

verus! {

/// The uids of the rows the user marked deleted, in order.
pub open spec fn deleted_uids(rows: Seq<RowView>) -> Seq<Seq<char>>
    decreases rows.len(),
{
    if rows.len() == 0 {
        Seq::empty()
    } else {
        let d = deleted_uids(rows.drop_last());
        if rows.last().flags & DELETED != 0 {
            d.push(rows.last().uid)
        } else {
            d
        }
    }
}

/// The uids of the rows the user marked deleted: the work list of an
/// expunge, copied out before anything is sent, because the walk removes
/// rows from the very summary it names.
pub fn deleted_rows(summary: &Summary) -> (v: Vec<String>)
    requires
        summary.wf(),
    ensures
        texts(v@) == deleted_uids(summary.rows()),
{
    let rows = summary.rows_held();
    let mut v: Vec<String> = Vec::new();
    let mut i: usize = 0;
    while i < rows.len()
        invariant
            i <= rows@.len(),
            crate::summary::rows_view(rows@) == summary.rows(),
            texts(v@) == deleted_uids(summary.rows().take(i as int)),
        decreases rows@.len() - i,
    {
        proof {
            assert(summary.rows().take(i + 1).drop_last() =~= summary.rows().take(i as int));
            assert(summary.rows().take(i + 1).last() == rows@[i as int]@);
        }
        if rows[i].flags & DELETED != 0 {
            let ghost before = v@;
            v.push(rows[i].uid.clone());
            proof {
                assert(texts(v@) =~= texts(before).push(rows@[i as int]@.uid));
            }
        }
        i = i + 1;
    }
    proof {
        assert(summary.rows().take(rows@.len() as int) =~= summary.rows());
    }
    v
}

/// Settles one marked row by how its expunge went: a message that left the
/// mailbox, or was not in the account at all, takes its row with it and is
/// reported removed; any other failure leaves the row marked and is what the
/// walk is told.
pub fn finish_expunge(
    summary: &mut Summary,
    changes: &mut Changes,
    uid: &String,
    outcome: Result<(), StoreError>,
) -> (r: Result<(), StoreError>)
    requires
        old(summary).wf(),
    ensures
        final(summary).wf(),
        final(summary).state() == old(summary).state(),
        match outcome {
            Ok(()) | Err(StoreError::NoMessage(_)) => {
                &&& r is Ok
                &&& forall|u: Seq<char>|
                    has_uid(final(summary).rows(), u) <==> has_uid(old(summary).rows(), u) && u
                        != uid@
                &&& final(changes)@ == (ChangesView {
                    removed: old(changes)@.removed.push(uid@),
                    ..old(changes)@
                })
            },
            Err(e) => {
                &&& r == Err::<(), StoreError>(e)
                &&& final(summary).rows() == old(summary).rows()
                &&& final(changes)@ == old(changes)@
            },
        },
{
    match outcome {
        Ok(()) | Err(StoreError::NoMessage(_)) => {
            summary.remove_uid(uid);
            changes.remove(uid.as_str());
            Ok(())
        },
        Err(e) => Err(e),
    }
}

} // verus!
