//! Filing messages into another folder of the same account.
//!
//! The write is one `Email/set` per message: a copy adds the destination to
//! its `mailboxIds`, a move adds it and takes the source away in one change.
//! What is decided here is everything around it — which filing, what becomes
//! of the rows the source folder is left holding, and what the caller is
//! told.
//!
//! One request per message, not one per transfer: one update per message can
//! fail alone, and Camel needs an answer per message — a row that landed must
//! leave the folder and one that did not must stay. Every message is tried,
//! and the first failure is reported once all have been. A moved message's
//! row goes now, rather than at the next listing; a message that is not on
//! the server at all is not in this folder either, whichever way the transfer
//! was going.

use vstd::prelude::*;

use crate::changes::{Changes, ChangesView};
use crate::connect::StoreError;
use crate::summary::{has_uid, Summary};
use crate::synchronize::Walk;

verus! {

/// Which way a transfer files its messages.
#[derive(Debug, PartialEq, Eq)]
pub enum Filing {
    /// Into `into`, leaving them where they are.
    Copied { into: String },
    /// Out of `from` and into `into`, in one change.
    Moved { from: String, into: String },
}

/// The filing a transfer writes, or `None` for the one that cannot be
/// written down: a move into the mailbox the messages are already in, which
/// must not take their rows away either.
pub open spec fn spec_filing(moving: bool, out_of: Seq<char>, into: Seq<char>) -> Option<
    (bool, Seq<char>, Seq<char>),
> {
    if moving && out_of == into {
        None
    } else {
        Some((moving, out_of, into))
    }
}

impl Filing {
    /// The filing as values: whether it moves, where from, where to.
    pub open spec fn filing_view(self, out_of: Seq<char>) -> (bool, Seq<char>, Seq<char>) {
        match self {
            Filing::Copied { into } => (false, out_of, into@),
            Filing::Moved { from, into } => (true, from@, into@),
        }
    }
}

/// What a transfer from the mailbox `source` into `destination` files, by
/// mailbox id, when the originals are to go or to stay. A folder that is not
/// one of this provider's — its mailbox unknown — is reported by its path:
/// the destination first, because it is the one the caller chose.
pub fn plan_transfer(
    source: Option<&String>,
    destination: Option<&String>,
    source_name: &str,
    destination_name: &str,
    moving: bool,
) -> (r: Result<Option<Filing>, StoreError>)
    ensures
        match (destination, source) {
            (None, _) => r matches Err(StoreError::NoFolder(p)) && p@ == destination_name@,
            (Some(_), None) => r matches Err(StoreError::NoFolder(p)) && p@ == source_name@,
            (Some(into), Some(out_of)) => match r {
                Ok(Some(f)) => spec_filing(moving, out_of@, into@) == Some(
                    f.filing_view(out_of@),
                ),
                Ok(None) => spec_filing(moving, out_of@, into@) is None,
                Err(_) => false,
            },
        },
{
    let into = match destination {
        Some(into) => into,
        None => return Err(StoreError::NoFolder(destination_name.to_owned())),
    };
    let out_of = match source {
        Some(out_of) => out_of,
        None => return Err(StoreError::NoFolder(source_name.to_owned())),
    };
    if moving {
        if *out_of == *into {
            Ok(None)
        } else {
            Ok(Some(Filing::Moved { from: out_of.clone(), into: into.clone() }))
        }
    } else {
        Ok(Some(Filing::Copied { into: into.clone() }))
    }
}

/// Whether a message's row leaves the source folder, by how filing it went:
/// a landed message leaves on a move, and a message the server does not have
/// leaves either way.
pub open spec fn spec_leaves(outcome: Result<(), StoreError>, moving: bool) -> bool {
    match outcome {
        Ok(()) => moving,
        Err(StoreError::NoMessage(_)) => true,
        Err(_) => false,
    }
}

/// A transfer under way: where each message ended up, the rows it took from
/// the source folder, and its first failure.
pub struct Transfer {
    moving: bool,
    transferred: Vec<Option<String>>,
    changes: Changes,
    walk: Walk,
}

impl Transfer {
    /// Whether the originals go.
    pub closed spec fn moving(&self) -> bool {
        self.moving
    }

    /// For each message of the caller's list, where it ended up: under its
    /// own uid — a JMAP `Email` has one id per account, in whatever mailbox
    /// — or nowhere.
    pub closed spec fn transferred(&self) -> Seq<Option<Seq<char>>> {
        self.transferred@.map_values(|t: Option<String>| match t {
            Some(s) => Some(s@),
            None => None,
        })
    }

    /// The rows the transfer took from the source folder.
    pub closed spec fn changes(&self) -> ChangesView {
        self.changes@
    }

    /// The first failure so far.
    pub closed spec fn first_failure(&self) -> Option<StoreError> {
        self.walk.first_failure()
    }

    /// A transfer of `count` messages, none of which has landed yet.
    pub fn new(moving: bool, count: usize) -> (t: Transfer)
        ensures
            t.moving() == moving,
            t.transferred() == Seq::new(count as nat, |i: int| None::<Seq<char>>),
            t.changes() == crate::changes::no_changes(),
            t.first_failure() is None,
    {
        let mut transferred: Vec<Option<String>> = Vec::new();
        let mut i: usize = 0;
        while i < count
            invariant
                i <= count,
                transferred@.len() == i,
                forall|j: int| 0 <= j < i ==> transferred@[j] is None,
            decreases count - i,
        {
            transferred.push(None);
            i = i + 1;
        }
        let t = Transfer { moving, transferred, changes: Changes::new(), walk: Walk::new() };
        proof {
            assert(t.transferred() =~= Seq::new(count as nat, |i: int| None::<Seq<char>>));
        }
        t
    }

    /// Records how filing the message at `index` of the caller's list went:
    /// its row leaves the source folder when [`spec_leaves`] says so and is
    /// reported removed, it is reported transferred only if it landed, and a
    /// failure — a message that is gone included — is the walk's.
    pub fn record(
        &mut self,
        summary: &mut Summary,
        index: usize,
        uid: &String,
        outcome: Result<(), StoreError>,
    )
        requires
            old(summary).wf(),
            index < old(self).transferred().len(),
        ensures
            final(summary).wf(),
            final(summary).state() == old(summary).state(),
            final(self).moving() == old(self).moving(),
            spec_leaves(outcome, old(self).moving()) ==> {
                &&& forall|u: Seq<char>|
                    has_uid(final(summary).rows(), u) <==> has_uid(old(summary).rows(), u) && u
                        != uid@
                &&& final(self).changes() == (ChangesView {
                    removed: old(self).changes().removed.push(uid@),
                    ..old(self).changes()
                })
            },
            !spec_leaves(outcome, old(self).moving()) ==> {
                &&& final(summary).rows() == old(summary).rows()
                &&& final(self).changes() == old(self).changes()
            },
            final(self).transferred() == old(self).transferred().update(
                index as int,
                match outcome {
                    Ok(()) => Some(uid@),
                    Err(_) => old(self).transferred()[index as int],
                },
            ),
            final(self).first_failure() == match old(self).first_failure() {
                Some(f) => Some(f),
                None => match outcome {
                    Ok(()) => None,
                    Err(e) => Some(e),
                },
            },
    {
        let leaves = match &outcome {
            Ok(()) => self.moving,
            Err(StoreError::NoMessage(_)) => true,
            Err(_) => false,
        };
        if leaves {
            summary.remove_uid(uid);
            self.changes.remove(uid.as_str());
        }
        let ghost before = self.transferred@;
        let landed = outcome.is_ok();
        if landed {
            self.transferred.set(index, Some(uid.clone()));
        }
        proof {
            if landed {
                assert(self.transferred() =~= old(self).transferred().update(
                    index as int,
                    Some(uid@),
                ));
            } else {
                assert(self.transferred() =~= old(self).transferred());
                assert(old(self).transferred().update(
                    index as int,
                    old(self).transferred()[index as int],
                ) =~= old(self).transferred());
            }
        }
        self.walk.record(outcome);
    }

    /// What the transfer answers with: where each message ended up, the rows
    /// it took from the source folder, and the first failure or success.
    pub fn finish(self) -> (r: (Vec<Option<String>>, Changes, Result<(), StoreError>))
        ensures
            r.0@.map_values(
                |t: Option<String>|
                    match t {
                        Some(s) => Some(s@),
                        None => None,
                    },
            ) == self.transferred(),
            r.1@ == self.changes(),
            match self.first_failure() {
                Some(f) => r.2 == Err::<(), StoreError>(f),
                None => r.2 is Ok,
            },
    {
        let Transfer { moving: _, transferred, changes, walk } = self;
        (transferred, changes, walk.finish())
    }
}

} // verus!
