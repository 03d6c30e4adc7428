//! The user's changes carried the other way: which keywords a message carries.
//!
//! A flag change goes on the wire as a difference — the keywords the last
//! listing found against the keywords the row claims now — because a
//! whole-set write would speak for every keyword on the message, including
//! the ones no client here has heard of. A row nobody really changed gives an
//! empty difference, which costs no request at all.
//!
//! Every row on the work list is attempted, and the first failure is what the
//! walk reports once it is done: a keyword one server refuses says nothing
//! about the next message. A message another client destroyed is not a
//! failure at all — the change is moot — and its row is settled like one
//! that was written.

use vstd::prelude::*;

use crate::connect::StoreError;
use crate::message_info::{
    copy_texts, has_text, spec_word_flags, text_set, word_flags, Keywords, KeywordsView,
    MessageFlags, MessageRow, RowView, FOLDER_FLAGGED,
};
use crate::summary::{find, Summary};

verus! {

/// The keywords to put on a message and the ones to take off it.
#[derive(Debug, PartialEq, Eq)]
pub struct KeywordChange {
    pub set: Keywords,
    pub unset: Keywords,
}

/// A keyword change as values.
pub struct KeywordChangeView {
    pub set: KeywordsView,
    pub unset: KeywordsView,
}

impl View for KeywordChange {
    type V = KeywordChangeView;

    open spec fn view(&self) -> KeywordChangeView {
        KeywordChangeView { set: self.set@, unset: self.unset@ }
    }
}

/// The keywords `a` has and `b` has not.
pub open spec fn flags_minus(a: MessageFlags, b: MessageFlags) -> MessageFlags {
    MessageFlags {
        seen: a.seen && !b.seen,
        answered: a.answered && !b.answered,
        flagged: a.flagged && !b.flagged,
        draft: a.draft && !b.draft,
        forwarded: a.forwarded && !b.forwarded,
        junk: a.junk && !b.junk,
        not_junk: a.not_junk && !b.not_junk,
        attachments: a.attachments && !b.attachments,
    }
}

/// No keyword at all.
pub open spec fn no_flags() -> MessageFlags {
    MessageFlags {
        seen: false,
        answered: false,
        flagged: false,
        draft: false,
        forwarded: false,
        junk: false,
        not_junk: false,
        attachments: false,
    }
}

/// The difference between the keywords the server was last seen holding and
/// the keywords the row claims now.
pub open spec fn spec_between(before: KeywordsView, after: KeywordsView) -> KeywordChangeView {
    KeywordChangeView {
        set: KeywordsView {
            flags: flags_minus(after.flags, before.flags),
            tags: after.tags.difference(before.tags),
        },
        unset: KeywordsView {
            flags: flags_minus(before.flags, after.flags),
            tags: before.tags.difference(after.tags),
        },
    }
}

/// Whether a change asks for nothing.
pub open spec fn change_is_empty(c: KeywordChangeView) -> bool {
    c.set.flags == no_flags() && c.unset.flags == no_flags() && c.set.tags.is_empty()
        && c.unset.tags.is_empty()
}

/// The keywords a message holds once `c` is applied to `k`.
pub open spec fn spec_apply(k: KeywordsView, c: KeywordChangeView) -> KeywordsView {
    KeywordsView {
        flags: MessageFlags {
            seen: (k.flags.seen || c.set.flags.seen) && !c.unset.flags.seen,
            answered: (k.flags.answered || c.set.flags.answered) && !c.unset.flags.answered,
            flagged: (k.flags.flagged || c.set.flags.flagged) && !c.unset.flags.flagged,
            draft: (k.flags.draft || c.set.flags.draft) && !c.unset.flags.draft,
            forwarded: (k.flags.forwarded || c.set.flags.forwarded) && !c.unset.flags.forwarded,
            junk: (k.flags.junk || c.set.flags.junk) && !c.unset.flags.junk,
            not_junk: (k.flags.not_junk || c.set.flags.not_junk) && !c.unset.flags.not_junk,
            attachments: (k.flags.attachments || c.set.flags.attachments)
                && !c.unset.flags.attachments,
        },
        tags: k.tags.union(c.set.tags).difference(c.unset.tags),
    }
}

/// The keywords `a` has and `b` has not.
fn minus(a: &MessageFlags, b: &MessageFlags) -> (f: MessageFlags)
    ensures
        f == flags_minus(*a, *b),
{
    MessageFlags {
        seen: a.seen && !b.seen,
        answered: a.answered && !b.answered,
        flagged: a.flagged && !b.flagged,
        draft: a.draft && !b.draft,
        forwarded: a.forwarded && !b.forwarded,
        junk: a.junk && !b.junk,
        not_junk: a.not_junk && !b.not_junk,
        attachments: a.attachments && !b.attachments,
    }
}

/// The strings of `a` that are not in `b`.
fn texts_minus(a: &Vec<String>, b: &Vec<String>) -> (d: Vec<String>)
    ensures
        text_set(d@) == text_set(a@).difference(text_set(b@)),
{
    let mut d: Vec<String> = Vec::new();
    let mut i: usize = 0;
    while i < a.len()
        invariant
            i <= a@.len(),
            text_set(d@) == text_set(a@.take(i as int)).difference(text_set(b@)),
        decreases a@.len() - i,
    {
        let ghost before = d@;
        let keep = !has_text(b, &a[i]);
        if keep {
            d.push(a[i].clone());
        }
        proof {
            let pre = a@.take(i as int);
            let post = a@.take(i + 1);
            assert forall|x: Seq<char>| text_set(post).contains(x) <==> text_set(pre).contains(x)
                || x == a@[i as int]@ by {
                if text_set(post).contains(x) {
                    let j = choose|j: int| 0 <= j < post.len() && (#[trigger] post[j])@ == x;
                    if j < i {
                        assert(pre[j] == post[j]);
                    }
                }
                if text_set(pre).contains(x) {
                    let j = choose|j: int| 0 <= j < pre.len() && (#[trigger] pre[j])@ == x;
                    assert(post[j] == pre[j]);
                }
                if x == a@[i as int]@ {
                    assert(post[i as int] == a@[i as int]);
                }
            }
            assert forall|x: Seq<char>| text_set(d@).contains(x) <==> text_set(before).contains(x)
                || (keep && x == a@[i as int]@) by {
                if text_set(d@).contains(x) {
                    let j = choose|j: int| 0 <= j < d@.len() && (#[trigger] d@[j])@ == x;
                    if j < before.len() {
                        assert(before[j] == d@[j]);
                    }
                }
                if text_set(before).contains(x) {
                    let j = choose|j: int| 0 <= j < before.len() && (#[trigger] before[j])@ == x;
                    assert(d@[j] == before[j]);
                }
                if keep && x == a@[i as int]@ {
                    assert(d@[before.len() as int] == a@[i as int]);
                }
            }
            assert(keep == !text_set(b@).contains(a@[i as int]@));
            assert forall|x: Seq<char>| text_set(d@).contains(x) <==> text_set(post).difference(
                text_set(b@),
            ).contains(x) by {
                assert(text_set(before).contains(x) <==> text_set(pre).difference(
                    text_set(b@),
                ).contains(x));
            }
            assert(text_set(d@) =~= text_set(post).difference(text_set(b@)));
        }
        i = i + 1;
    }
    proof {
        assert(a@.take(a@.len() as int) =~= a@);
    }
    d
}

impl KeywordChange {
    /// The change that takes a message from `before` to `after`.
    pub fn between(before: &Keywords, after: &Keywords) -> (c: KeywordChange)
        ensures
            c@ == spec_between(before@, after@),
    {
        KeywordChange {
            set: Keywords {
                flags: minus(&after.flags, &before.flags),
                tags: texts_minus(&after.tags, &before.tags),
            },
            unset: Keywords {
                flags: minus(&before.flags, &after.flags),
                tags: texts_minus(&before.tags, &after.tags),
            },
        }
    }

    /// Whether the change asks for nothing, and so costs no request.
    pub fn is_empty(&self) -> (r: bool)
        ensures
            r == change_is_empty(self@),
    {
        let none = MessageFlags {
            seen: false,
            answered: false,
            flagged: false,
            draft: false,
            forwarded: false,
            junk: false,
            not_junk: false,
            attachments: false,
        };
        let r = self.set.flags == none && self.unset.flags == none && self.set.tags.len() == 0
            && self.unset.tags.len() == 0;
        proof {
            if !(self.set.tags@.len() == 0) {
                assert(self@.set.tags.contains(self.set.tags@[0]@));
            }
            if !(self.unset.tags@.len() == 0) {
                assert(self@.unset.tags.contains(self.unset.tags@[0]@));
            }
            if self.set.tags@.len() == 0 {
                assert(self@.set.tags =~= Set::empty());
            }
            if self.unset.tags@.len() == 0 {
                assert(self@.unset.tags =~= Set::empty());
            }
        }
        r
    }
}

/// The difference between two keyword sets asks for nothing exactly when
/// they are the same, and applying it to the first gives the second: the
/// write a synchronisation sends is the user's change, all of it and nothing
/// else.
pub proof fn law_change_is_the_difference(before: KeywordsView, after: KeywordsView)
    ensures
        change_is_empty(spec_between(before, after)) <==> before == after,
        spec_apply(before, spec_between(before, after)) == after,
{
    let c = spec_between(before, after);
    assert(spec_apply(before, c).tags =~= after.tags);
    if change_is_empty(c) {
        assert forall|t: Seq<char>| before.tags.contains(t) == after.tags.contains(t) by {
            assert(!c.set.tags.contains(t));
            assert(!c.unset.tags.contains(t));
        }
        assert(before.tags =~= after.tags);
    }
    if before == after {
        assert(c.set.tags =~= Set::empty());
        assert(c.unset.tags =~= Set::empty());
    }
}

/// The keywords a row claims now: its word's keyword bits and its labels.
pub open spec fn spec_row_keywords(r: RowView) -> KeywordsView {
    KeywordsView { flags: spec_word_flags(r.flags), tags: r.labels }
}

/// The keywords `row` claims now.
pub fn row_keywords(row: &MessageRow) -> (k: Keywords)
    ensures
        k@ == spec_row_keywords(row@),
{
    Keywords { flags: word_flags(row.flags), tags: copy_texts(&row.labels) }
}

/// What a row is left as once its write is over: written, or moot because
/// the message is gone, it is taken off the work list, and a written row
/// remembers what was just sent as what the server holds; a failed write
/// leaves it queued for the next synchronisation.
pub open spec fn spec_settled(r: RowView, outcome: Result<(), StoreError>) -> RowView {
    match outcome {
        Ok(()) => RowView {
            flags: r.flags & !FOLDER_FLAGGED,
            server: spec_row_keywords(r),
            ..r
        },
        Err(StoreError::NoMessage(_)) => RowView { flags: r.flags & !FOLDER_FLAGGED, ..r },
        Err(_) => r,
    }
}

/// Clearing the pending-write mark leaves every keyword bit as it was.
proof fn lemma_clear_pending_keeps_keywords(w: u32)
    ensures
        spec_word_flags(w & !FOLDER_FLAGGED) == spec_word_flags(w),
{
    assert((w & !0x10000u32) & 0x10 == w & 0x10 && (w & !0x10000u32) & 0x1 == w & 0x1 && (w
        & !0x10000u32) & 0x8 == w & 0x8 && (w & !0x10000u32) & 0x4 == w & 0x4 && (w
        & !0x10000u32) & 0x400 == w & 0x400 && (w & !0x10000u32) & 0x80 == w & 0x80 && (w
        & !0x10000u32) & 0x200 == w & 0x200 && (w & !0x10000u32) & 0x20 == w & 0x20)
        by (bit_vector);
}

/// A row whose write went through has nothing more to say: it is off the
/// work list, and what it remembers the server holding is what it claims, so
/// the next synchronisation sends it nothing.
pub proof fn law_a_written_row_is_settled(r: RowView)
    ensures
        !crate::message_info::pending(spec_settled(r, Ok(())).flags),
        change_is_empty(
            spec_between(
                spec_settled(r, Ok(())).server,
                spec_row_keywords(spec_settled(r, Ok(()))),
            ),
        ),
{
    lemma_clear_pending_keeps_keywords(r.flags);
    let w = r.flags;
    assert((w & !0x10000u32) & 0x10000 == 0) by (bit_vector);
    law_change_is_the_difference(
        spec_settled(r, Ok(())).server,
        spec_row_keywords(spec_settled(r, Ok(()))),
    );
}

/// What the walk is told about one row: a message that is gone is not a
/// failure.
pub open spec fn spec_reported(outcome: Result<(), StoreError>) -> Result<(), StoreError> {
    match outcome {
        Err(StoreError::NoMessage(_)) => Ok(()),
        other => other,
    }
}

/// What a row on the work list needs.
#[derive(Debug, PartialEq, Eq)]
pub enum Write {
    /// No row under that uid any more: a refresh running alongside took it.
    Nothing,
    /// The row had nothing to say and has been settled; no request.
    Settled,
    /// This change is to be sent, and [`Summary::finish_write`] told how it
    /// went.
    Send(KeywordChange),
}

impl Summary {
    /// Settles the row at `j` after a write that went as `outcome`.
    fn settle_at(&mut self, j: usize, outcome: &Result<(), StoreError>)
        requires
            old(self).wf(),
            j < old(self).rows().len(),
        ensures
            final(self).wf(),
            final(self).state() == old(self).state(),
            final(self).rows() == old(self).rows().update(
                j as int,
                spec_settled(old(self).rows()[j as int], *outcome),
            ),
    {
        let ghost before = self.rows();
        match outcome {
            Ok(()) => {
                let row = self.row_at(j);
                let keywords = row_keywords(row);
                let flags = row.flags & !FOLDER_FLAGGED;
                self.set_row_flags(j, flags);
                self.set_row_server(j, keywords);
            },
            Err(StoreError::NoMessage(_)) => {
                let flags = self.row_at(j).flags & !FOLDER_FLAGGED;
                self.set_row_flags(j, flags);
            },
            Err(_) => {},
        }
        proof {
            assert(self.rows() =~= before.update(j as int, spec_settled(before[j as int], *outcome)));
        }
    }

    /// Looks at one row on the work list: nothing to do for a row that has
    /// gone, a settled row for one with nothing to say, or the change to send.
    pub fn prepare_write(&mut self, uid: &String) -> (w: Write)
        requires
            old(self).wf(),
        ensures
            final(self).wf(),
            final(self).state() == old(self).state(),
            ({
                let rows = old(self).rows();
                let j = find(rows, uid@);
                if j < 0 {
                    w == Write::Nothing && final(self).rows() == rows
                } else {
                    let c = spec_between(rows[j].server, spec_row_keywords(rows[j]));
                    if change_is_empty(c) {
                        w == Write::Settled && final(self).rows() == rows.update(
                            j,
                            spec_settled(rows[j], Ok(())),
                        )
                    } else {
                        w matches Write::Send(k) && k@ == c && final(self).rows() == rows
                    }
                }
            }),
    {
        match self.position_of(uid) {
            None => Write::Nothing,
            Some(j) => {
                let row = self.row_at(j);
                let after = row_keywords(row);
                let change = KeywordChange::between(&row.server, &after);
                if change.is_empty() {
                    self.settle_at(j, &Ok(()));
                    Write::Settled
                } else {
                    Write::Send(change)
                }
            },
        }
    }

    /// Settles the row a change was sent for, by how the write went, and
    /// answers what the walk is to be told: a message that is gone is not a
    /// failure.
    pub fn finish_write(&mut self, uid: &String, outcome: Result<(), StoreError>) -> (r: Result<
        (),
        StoreError,
    >)
        requires
            old(self).wf(),
        ensures
            final(self).wf(),
            final(self).state() == old(self).state(),
            r == spec_reported(outcome),
            ({
                let rows = old(self).rows();
                let j = find(rows, uid@);
                if j < 0 {
                    final(self).rows() == rows
                } else {
                    final(self).rows() == rows.update(j, spec_settled(rows[j], outcome))
                }
            }),
    {
        if let Some(j) = self.position_of(uid) {
            self.settle_at(j, &outcome);
        }
        match outcome {
            Err(StoreError::NoMessage(_)) => Ok(()),
            other => other,
        }
    }
}

/// The state of a walk over a folder's rows: every row is attempted, and the
/// first failure is what the walk reports when it is done.
pub struct Walk {
    failure: Option<StoreError>,
}

impl Walk {
    /// The first failure recorded, if there was one.
    pub closed spec fn first_failure(&self) -> Option<StoreError> {
        self.failure
    }

    /// A walk in which nothing has failed yet.
    pub fn new() -> (w: Walk)
        ensures
            w.first_failure() is None,
    {
        Walk { failure: None }
    }

    /// Records how one row went. A later failure does not replace an earlier
    /// one.
    pub fn record(&mut self, result: Result<(), StoreError>)
        ensures
            final(self).first_failure() == match old(self).first_failure() {
                Some(f) => Some(f),
                None => match result {
                    Ok(()) => None,
                    Err(e) => Some(e),
                },
            },
    {
        if self.failure.is_none() {
            if let Err(e) = result {
                self.failure = Some(e);
            }
        }
    }

    /// What the walk answers: the first failure, or success.
    pub fn finish(self) -> (r: Result<(), StoreError>)
        ensures
            match self.first_failure() {
                Some(f) => r == Err::<(), StoreError>(f),
                None => r is Ok,
            },
    {
        match self.failure {
            Some(f) => Err(f),
            None => Ok(()),
        }
    }
}

} // verus!
