//! Where a folder keeps its rows, and how a listing or a delta of the mailbox
//! is brought into them.
//!
//! A listing is not a copy. It is applied again on every refresh, so most of
//! what it does is meet rows that are already there:
//!
//! - A message the listing no longer names has left the mailbox — JMAP moves
//!   mail by changing `mailboxIds`, so leaving and being deleted look the same
//!   from inside one folder — and its row goes.
//! - A message that is already there keeps its row and has only its keywords
//!   rewritten: RFC 8621 §4.1 makes everything else immutable, and replacing
//!   the row would throw away the local marks Camel keeps in its flags word.
//! - A message that is new gets a row under the server's id.
//!
//! A delta is the other answer: silence in it means nothing was said about a
//! message, not that the message left. It names what the mailbox now holds of
//! the messages that moved, and what it no longer holds; every other row is
//! left exactly where it is. A message it names that the folder has no row for
//! is one that arrived since the folder's state, and only a delta can say so.
//!
//! Beside the rows the summary keeps the `Email` state they are current as
//! of, which is what the next refresh asks for changes since.

use vstd::prelude::*;

use crate::changes::{no_changes, texts, Changes, ChangesView};
use crate::message_info::{
    copy_texts, law_refresh_is_idempotent, moved, new_row, refresh_row, spec_new_row,
    spec_refreshed, Keywords, MessageRow, MessageSummary, RowView,
};

verus! {

/// A folder's rows, unique by uid, and the state they are current as of.
pub struct Summary {
    rows: Vec<MessageRow>,
    state: Option<String>,
}

/// The rows of `v` as values.
pub open spec fn rows_view(v: Seq<MessageRow>) -> Seq<RowView> {
    v.map_values(|r: MessageRow| r@)
}

/// No two rows share a uid.
pub open spec fn uids_distinct(rows: Seq<RowView>) -> bool {
    forall|i: int, j: int| 0 <= i < j < rows.len() ==> (#[trigger] rows[i]).uid != (#[trigger] rows[j]).uid
}

/// Whether a row has the uid `u`.
pub open spec fn has_uid(rows: Seq<RowView>, u: Seq<char>) -> bool {
    exists|i: int| 0 <= i < rows.len() && (#[trigger] rows[i]).uid == u
}

/// The position of the row with uid `u`, or -1.
pub open spec fn find(rows: Seq<RowView>, u: Seq<char>) -> int {
    if has_uid(rows, u) {
        choose|i: int| 0 <= i < rows.len() && (#[trigger] rows[i]).uid == u
    } else {
        -1
    }
}

/// Whether the listing `msgs` names the uid `u`.
pub open spec fn listed(msgs: Seq<MessageSummary>, u: Seq<char>) -> bool {
    exists|i: int| 0 <= i < msgs.len() && (#[trigger] msgs[i]).uid@ == u
}

/// The rows a listing keeps, in order: the ones it names.
pub open spec fn kept(rows: Seq<RowView>, msgs: Seq<MessageSummary>) -> Seq<RowView>
    decreases rows.len(),
{
    if rows.len() == 0 {
        Seq::empty()
    } else {
        let k = kept(rows.drop_last(), msgs);
        if listed(msgs, rows.last().uid) {
            k.push(rows.last())
        } else {
            k
        }
    }
}

/// The uids a listing drops, in order: the ones it does not name.
pub open spec fn dropped(rows: Seq<RowView>, msgs: Seq<MessageSummary>) -> Seq<Seq<char>>
    decreases rows.len(),
{
    if rows.len() == 0 {
        Seq::empty()
    } else {
        let d = dropped(rows.drop_last(), msgs);
        if listed(msgs, rows.last().uid) {
            d
        } else {
            d.push(rows.last().uid)
        }
    }
}

/// The rows after one listed message is brought in: its row refreshed, or a
/// new row at the end.
pub open spec fn step(rows: Seq<RowView>, m: MessageSummary) -> Seq<RowView> {
    let j = find(rows, m.uid@);
    if j >= 0 {
        rows.update(j, spec_refreshed(rows[j], m))
    } else {
        rows.push(spec_new_row(m))
    }
}

/// The rows after every message of `msgs` is brought in, in order.
pub open spec fn fold_rows(rows: Seq<RowView>, msgs: Seq<MessageSummary>) -> Seq<RowView>
    decreases msgs.len(),
{
    if msgs.len() == 0 {
        rows
    } else {
        step(fold_rows(rows, msgs.drop_last()), msgs.last())
    }
}

/// The uids bringing `msgs` in adds a row for, in order.
pub open spec fn fold_added(rows: Seq<RowView>, msgs: Seq<MessageSummary>) -> Seq<Seq<char>>
    decreases msgs.len(),
{
    if msgs.len() == 0 {
        Seq::empty()
    } else {
        let before = fold_rows(rows, msgs.drop_last());
        let prev = fold_added(rows, msgs.drop_last());
        if find(before, msgs.last().uid@) < 0 {
            prev.push(msgs.last().uid@)
        } else {
            prev
        }
    }
}

/// The uids whose rows bringing `msgs` in moves, in order.
pub open spec fn fold_changed(rows: Seq<RowView>, msgs: Seq<MessageSummary>) -> Seq<Seq<char>>
    decreases msgs.len(),
{
    if msgs.len() == 0 {
        Seq::empty()
    } else {
        let before = fold_rows(rows, msgs.drop_last());
        let prev = fold_changed(rows, msgs.drop_last());
        let j = find(before, msgs.last().uid@);
        if j >= 0 && moved(before[j], spec_refreshed(before[j], msgs.last())) {
            prev.push(msgs.last().uid@)
        } else {
            prev
        }
    }
}

/// The rows a listing leaves.
pub open spec fn listing_rows(rows: Seq<RowView>, msgs: Seq<MessageSummary>) -> Seq<RowView> {
    fold_rows(kept(rows, msgs), msgs)
}

/// What a listing reports: the rows it dropped, added and moved; nothing is
/// recent, because a listing cannot tell an arrival from a message that was
/// always there.
pub open spec fn listing_changes(rows: Seq<RowView>, msgs: Seq<MessageSummary>) -> ChangesView {
    ChangesView {
        added: fold_added(kept(rows, msgs), msgs),
        removed: dropped(rows, msgs),
        changed: fold_changed(kept(rows, msgs), msgs),
        recent: Seq::empty(),
    }
}

/// The rows a delta leaves behind once the ones it says are gone are gone.
pub open spec fn without(rows: Seq<RowView>, gone: Seq<Seq<char>>) -> Seq<RowView>
    decreases rows.len(),
{
    if rows.len() == 0 {
        Seq::empty()
    } else {
        let k = without(rows.drop_last(), gone);
        if gone.contains(rows.last().uid) {
            k
        } else {
            k.push(rows.last())
        }
    }
}

/// The uids of `rows` that are in `gone`, in order: what a delta removes.
pub open spec fn removed_by(rows: Seq<RowView>, gone: Seq<Seq<char>>) -> Seq<Seq<char>>
    decreases rows.len(),
{
    if rows.len() == 0 {
        Seq::empty()
    } else {
        let d = removed_by(rows.drop_last(), gone);
        if gone.contains(rows.last().uid) {
            d.push(rows.last().uid)
        } else {
            d
        }
    }
}

/// The rows a delta leaves.
pub open spec fn delta_rows(
    rows: Seq<RowView>,
    present: Seq<MessageSummary>,
    absent: Seq<Seq<char>>,
) -> Seq<RowView> {
    fold_rows(without(rows, absent), present)
}

/// What a delta reports: the rows it removed and moved, and each row it added
/// as both added and recent.
pub open spec fn delta_changes(
    rows: Seq<RowView>,
    present: Seq<MessageSummary>,
    absent: Seq<Seq<char>>,
) -> ChangesView {
    let k = without(rows, absent);
    ChangesView {
        added: fold_added(k, present),
        removed: removed_by(rows, absent),
        changed: fold_changed(k, present),
        recent: fold_added(k, present),
    }
}

/// The state a summary is current as of.
pub open spec fn state_view(s: Option<String>) -> Option<Seq<char>> {
    match s {
        Some(s) => Some(s@),
        None => None,
    }
}

/// A copy of a row.
fn copy_row(r: &MessageRow) -> (c: MessageRow)
    ensures
        c@ == r@,
{
    MessageRow {
        uid: r.uid.clone(),
        flags: r.flags,
        labels: copy_texts(&r.labels),
        server: Keywords { flags: r.server.flags, tags: copy_texts(&r.server.tags) },
    }
}

/// Whether the listing names `uid`.
fn is_listed(msgs: &[MessageSummary], uid: &String) -> (r: bool)
    ensures
        r == listed(msgs@, uid@),
{
    let mut i: usize = 0;
    while i < msgs.len()
        invariant
            i <= msgs@.len(),
            forall|j: int| 0 <= j < i ==> (#[trigger] msgs@[j]).uid@ != uid@,
        decreases msgs@.len() - i,
    {
        if msgs[i].uid == *uid {
            assert(msgs@[i as int].uid@ == uid@);
            return true;
        }
        i = i + 1;
    }
    false
}

/// Whether `uid` is one of `gone`.
fn is_gone(gone: &[String], uid: &String) -> (r: bool)
    ensures
        r == texts(gone@).contains(uid@),
{
    let mut i: usize = 0;
    while i < gone.len()
        invariant
            i <= gone@.len(),
            forall|j: int| 0 <= j < i ==> (#[trigger] gone@[j])@ != uid@,
        decreases gone@.len() - i,
    {
        if gone[i] == *uid {
            assert(texts(gone@)[i as int] == uid@);
            return true;
        }
        i = i + 1;
    }
    proof {
        if texts(gone@).contains(uid@) {
            let j = choose|j: int| 0 <= j < texts(gone@).len() && texts(gone@)[j] == uid@;
            assert(gone@[j]@ == uid@);
        }
    }
    false
}

/// With distinct uids, a row found by uid is the one `find` names.
proof fn lemma_find_is(rows: Seq<RowView>, i: int)
    requires
        uids_distinct(rows),
        0 <= i < rows.len(),
    ensures
        find(rows, rows[i].uid) == i,
{
    assert(has_uid(rows, rows[i].uid));
    let j = find(rows, rows[i].uid);
    if j != i {
        if j < i {
            assert(rows[j].uid != rows[i].uid);
        } else {
            assert(rows[i].uid != rows[j].uid);
        }
    }
}

/// Bringing one message in keeps the uids distinct, and keeps or adds its row.
proof fn lemma_step(rows: Seq<RowView>, m: MessageSummary)
    requires
        uids_distinct(rows),
    ensures
        uids_distinct(step(rows, m)),
        has_uid(step(rows, m), m.uid@),
        forall|u: Seq<char>| has_uid(step(rows, m), u) <==> has_uid(rows, u) || u == m.uid@,
{
    let j = find(rows, m.uid@);
    let s = step(rows, m);
    if j >= 0 {
        assert(s[j].uid == m.uid@);
        assert forall|u: Seq<char>| has_uid(s, u) <==> has_uid(rows, u) || u == m.uid@ by {
            if has_uid(rows, u) {
                let i = choose|i: int| 0 <= i < rows.len() && (#[trigger] rows[i]).uid == u;
                assert(s[i].uid == u);
            }
            if has_uid(s, u) {
                let i = choose|i: int| 0 <= i < s.len() && (#[trigger] s[i]).uid == u;
                assert(rows[i].uid == u);
            }
        }
    } else {
        assert(s[rows.len() as int].uid == m.uid@);
        assert forall|u: Seq<char>| has_uid(s, u) <==> has_uid(rows, u) || u == m.uid@ by {
            if has_uid(rows, u) {
                let i = choose|i: int| 0 <= i < rows.len() && (#[trigger] rows[i]).uid == u;
                assert(s[i].uid == u);
            }
            if has_uid(s, u) {
                let i = choose|i: int| 0 <= i < s.len() && (#[trigger] s[i]).uid == u;
                if i < rows.len() {
                    assert(rows[i].uid == u);
                }
            }
        }
        assert forall|a: int, b: int| 0 <= a < b < s.len() implies (#[trigger] s[a]).uid
            != (#[trigger] s[b]).uid by {
            if b == rows.len() {
                assert(!(rows[a].uid == m.uid@));
            }
        }
    }
}

impl Summary {
    /// The rows, as values.
    pub closed spec fn rows(&self) -> Seq<RowView> {
        rows_view(self.rows@)
    }

    /// The state the rows are current as of.
    pub closed spec fn state(&self) -> Option<Seq<char>> {
        state_view(self.state)
    }

    /// No two rows share a uid.
    pub closed spec fn wf(&self) -> bool {
        uids_distinct(self.rows())
    }

    /// A summary is well-formed exactly when no two of its rows share a uid.
    pub proof fn lemma_wf_rows_distinct(&self)
        ensures
            self.wf() == uids_distinct(self.rows()),
    {
    }

    /// A summary with no rows, current as of nothing: a folder that has
    /// never listed.
    pub fn new() -> (s: Summary)
        ensures
            s.wf(),
            s.rows() == Seq::<RowView>::empty(),
            s.state() is None,
    {
        let s = Summary { rows: Vec::new(), state: None };
        proof {
            assert(s.rows() =~= Seq::<RowView>::empty());
        }
        s
    }

    /// The rows, for the caller that mirrors them into Camel's summary.
    pub fn rows_held(&self) -> (v: &Vec<MessageRow>)
        ensures
            rows_view(v@) == self.rows(),
    {
        &self.rows
    }

    /// The state the rows are current as of, if they are current as of one.
    pub fn current_state(&self) -> (s: Option<&String>)
        ensures
            match s {
                Some(t) => self.state() == Some(t@),
                None => self.state() is None,
            },
    {
        match &self.state {
            Some(t) => Some(t),
            None => None,
        }
    }

    /// Takes in a row Camel already holds, unless the summary holds one under
    /// that uid; reports whether it was taken.
    pub fn insert_row(&mut self, row: MessageRow) -> (taken: bool)
        requires
            old(self).wf(),
        ensures
            final(self).wf(),
            final(self).state() == old(self).state(),
            taken == !has_uid(old(self).rows(), row@.uid),
            taken ==> final(self).rows() == old(self).rows().push(row@),
            !taken ==> final(self).rows() == old(self).rows(),
    {
        let mut i: usize = 0;
        while i < self.rows.len()
            invariant
                i <= self.rows@.len(),
                self.wf(),
                self == old(self),
                forall|j: int| 0 <= j < i ==> (#[trigger] self.rows@[j])@.uid != row@.uid,
            decreases self.rows@.len() - i,
        {
            if self.rows[i].uid == row.uid {
                proof {
                    assert(self.rows()[i as int].uid == row@.uid);
                }
                return false;
            }
            i = i + 1;
        }
        proof {
            assert forall|j: int| 0 <= j < self.rows().len() implies (#[trigger] self.rows()[j]).uid
                != row@.uid by {
                assert(self.rows()[j] == self.rows@[j]@);
            }
        }
        let ghost before = self.rows();
        self.rows.push(row);
        proof {
            assert(self.rows() =~= before.push(row@));
            lemma_push_new(before, row@);
        }
        true
    }

    /// The position of the row with `uid`, if there is one.
    fn position(&self, uid: &String) -> (p: Option<usize>)
        requires
            self.wf(),
        ensures
            match p {
                Some(i) => i == find(self.rows(), uid@) && i < self.rows().len(),
                None => find(self.rows(), uid@) == -1,
            },
    {
        let mut i: usize = 0;
        while i < self.rows.len()
            invariant
                i <= self.rows@.len(),
                self.wf(),
                forall|j: int| 0 <= j < i ==> (#[trigger] self.rows@[j])@.uid != uid@,
            decreases self.rows@.len() - i,
        {
            if self.rows[i].uid == *uid {
                proof {
                    assert(self.rows()[i as int].uid == uid@);
                    lemma_find_is(self.rows(), i as int);
                }
                return Some(i);
            }
            i = i + 1;
        }
        proof {
            if has_uid(self.rows(), uid@) {
                let j = choose|j: int| 0 <= j < self.rows().len() && (#[trigger] self.rows()[j]).uid
                    == uid@;
                assert(self.rows()[j] == self.rows@[j]@);
            }
        }
        None
    }

    /// The position of the row with `uid`, if there is one.
    pub fn position_of(&self, uid: &String) -> (p: Option<usize>)
        requires
            self.wf(),
        ensures
            match p {
                Some(i) => i == find(self.rows(), uid@) && i < self.rows().len(),
                None => find(self.rows(), uid@) == -1,
            },
    {
        self.position(uid)
    }

    /// The row at `j`.
    pub fn row_at(&self, j: usize) -> (r: &MessageRow)
        requires
            j < self.rows().len(),
        ensures
            r@ == self.rows()[j as int],
    {
        &self.rows[j]
    }

    /// Rewrites the flags word of the row at `j`.
    pub fn set_row_flags(&mut self, j: usize, flags: u32)
        requires
            old(self).wf(),
            j < old(self).rows().len(),
        ensures
            final(self).wf(),
            final(self).state() == old(self).state(),
            final(self).rows() == old(self).rows().update(
                j as int,
                RowView { flags, ..old(self).rows()[j as int] },
            ),
    {
        let ghost before = self.rows();
        self.rows[j].flags = flags;
        proof {
            assert(self.rows() =~= before.update(j as int, RowView { flags, ..before[j as int] }));
            assert forall|a: int, b: int| 0 <= a < b < self.rows().len() implies (
            #[trigger] self.rows()[a]).uid != (#[trigger] self.rows()[b]).uid by {
                assert(self.rows()[a].uid == before[a].uid && self.rows()[b].uid == before[b].uid);
            }
        }
    }

    /// Rewrites what the row at `j` remembers the server holding.
    pub fn set_row_server(&mut self, j: usize, server: Keywords)
        requires
            old(self).wf(),
            j < old(self).rows().len(),
        ensures
            final(self).wf(),
            final(self).state() == old(self).state(),
            final(self).rows() == old(self).rows().update(
                j as int,
                RowView { server: server@, ..old(self).rows()[j as int] },
            ),
    {
        let ghost before = self.rows();
        self.rows[j].server = server;
        proof {
            assert(self.rows() =~= before.update(
                j as int,
                RowView { server: server@, ..before[j as int] },
            ));
            assert forall|a: int, b: int| 0 <= a < b < self.rows().len() implies (
            #[trigger] self.rows()[a]).uid != (#[trigger] self.rows()[b]).uid by {
                assert(self.rows()[a].uid == before[a].uid && self.rows()[b].uid == before[b].uid);
            }
        }
    }

    /// Takes the row with `uid` away, if there is one; reports whether there
    /// was.
    pub fn remove_uid(&mut self, uid: &String) -> (removed: bool)
        requires
            old(self).wf(),
        ensures
            final(self).wf(),
            final(self).state() == old(self).state(),
            removed == has_uid(old(self).rows(), uid@),
            removed ==> final(self).rows() == old(self).rows().remove(find(old(self).rows(), uid@)),
            !removed ==> final(self).rows() == old(self).rows(),
            forall|u: Seq<char>|
                has_uid(final(self).rows(), u) <==> has_uid(old(self).rows(), u) && u != uid@,
    {
        let ghost before = self.rows();
        match self.position(uid) {
            Some(j) => {
                self.rows.remove(j);
                proof {
                    assert(self.rows() =~= before.remove(j as int));
                    let after = self.rows();
                    assert forall|a: int, b: int| 0 <= a < b < after.len() implies (
                    #[trigger] after[a]).uid != (#[trigger] after[b]).uid by {
                        let a0 = if a < j { a } else { a + 1 };
                        let b0 = if b < j { b } else { b + 1 };
                        assert(after[a] == before[a0] && after[b] == before[b0]);
                    }
                    assert forall|u: Seq<char>| has_uid(after, u) <==> has_uid(before, u) && u
                        != uid@ by {
                        if has_uid(after, u) {
                            let i = choose|i: int| 0 <= i < after.len() && (#[trigger] after[i]).uid
                                == u;
                            let i0 = if i < j { i } else { i + 1 };
                            assert(after[i] == before[i0]);
                            assert(before[j as int].uid == uid@);
                            if i0 != j {
                                if i0 < j {
                                    assert(before[i0].uid != before[j as int].uid);
                                } else {
                                    assert(before[j as int].uid != before[i0].uid);
                                }
                            }
                        }
                        if has_uid(before, u) && u != uid@ {
                            let i = choose|i: int| 0 <= i < before.len() && (#[trigger] before[i]).uid
                                == u;
                            assert(i != j);
                            let i1 = if i < j { i } else { i - 1 };
                            assert(after[i1] == before[i]);
                        }
                    }
                }
                true
            },
            None => {
                proof {
                    assert forall|u: Seq<char>| has_uid(before, u) <==> has_uid(before, u) && u
                        != uid@ by {
                        if has_uid(before, u) && u == uid@ {
                            assert(find(before, uid@) >= 0);
                        }
                    }
                }
                false
            },
        }
    }

    /// Brings one message in: refreshes its row, or adds one.
    fn bring_in(&mut self, m: &MessageSummary, changes: &mut Changes, arrival: bool)
        requires
            old(self).wf(),
        ensures
            final(self).wf(),
            final(self).state() == old(self).state(),
            final(self).rows() == step(old(self).rows(), *m),
            ({
                let j = find(old(self).rows(), m.uid@);
                let c = old(changes)@;
                let added = if j < 0 {
                    c.added.push(m.uid@)
                } else {
                    c.added
                };
                let recent = if j < 0 && arrival {
                    c.recent.push(m.uid@)
                } else {
                    c.recent
                };
                let changed = if j >= 0 && moved(
                    old(self).rows()[j],
                    spec_refreshed(old(self).rows()[j], *m),
                ) {
                    c.changed.push(m.uid@)
                } else {
                    c.changed
                };
                final(changes)@ == ChangesView { added, recent, changed, removed: c.removed }
            }),
    {
        proof {
            lemma_step(self.rows(), *m);
        }
        match self.position(&m.uid) {
            Some(j) => {
                let ghost before = self.rows();
                let moved_row = refresh_row(&mut self.rows[j], m);
                proof {
                    assert(self.rows() =~= before.update(j as int, spec_refreshed(before[j as int], *m)));
                }
                if moved_row {
                    changes.change(m.uid.as_str());
                }
            },
            None => {
                let ghost before = self.rows();
                self.rows.push(new_row(m));
                proof {
                    assert(self.rows() =~= before.push(spec_new_row(*m)));
                }
                changes.add(m.uid.as_str());
                if arrival {
                    changes.arrive(m.uid.as_str());
                }
            },
        }
    }

    /// Brings the rows in line with what one listing of the mailbox found,
    /// and reports what moved: the rows the listing does not name go, the
    /// ones it names are refreshed, and the messages without a row get one.
    pub fn apply_listing(&mut self, messages: &[MessageSummary]) -> (changes: Changes)
        requires
            old(self).wf(),
        ensures
            final(self).wf(),
            final(self).state() == old(self).state(),
            final(self).rows() == listing_rows(old(self).rows(), messages@),
            changes@ == listing_changes(old(self).rows(), messages@),
    {
        let mut changes = Changes::new();
        let mut rows: Vec<MessageRow> = Vec::new();
        let ghost start = self.rows();
        let mut i: usize = 0;
        while i < self.rows.len()
            invariant
                i <= self.rows@.len(),
                start == rows_view(self.rows@),
                uids_distinct(start),
                rows_view(rows@) == kept(start.take(i as int), messages@),
                changes@ == (ChangesView {
                    removed: dropped(start.take(i as int), messages@),
                    ..no_changes()
                }),
            decreases self.rows@.len() - i,
        {
            proof {
                assert(start.take(i + 1).drop_last() =~= start.take(i as int));
                assert(start.take(i + 1).last() == self.rows@[i as int]@);
            }
            if is_listed(messages, &self.rows[i].uid) {
                let ghost before = rows@;
                rows.push(copy_row(&self.rows[i]));
                proof {
                    assert(rows_view(rows@) =~= rows_view(before).push(self.rows@[i as int]@));
                }
            } else {
                changes.remove(self.rows[i].uid.as_str());
            }
            i = i + 1;
        }
        proof {
            assert(start.take(self.rows@.len() as int) =~= start);
            lemma_kept_distinct(start, messages@);
        }
        self.rows = rows;
        let ghost base = self.rows();
        let mut k: usize = 0;
        while k < messages.len()
            invariant
                k <= messages@.len(),
                self.wf(),
                self.state() == old(self).state(),
                self.rows() == fold_rows(base, messages@.take(k as int)),
                changes@ == (ChangesView {
                    added: fold_added(base, messages@.take(k as int)),
                    changed: fold_changed(base, messages@.take(k as int)),
                    removed: dropped(start, messages@),
                    recent: Seq::empty(),
                }),
            decreases messages@.len() - k,
        {
            proof {
                assert(messages@.take(k + 1).drop_last() =~= messages@.take(k as int));
                assert(messages@.take(k + 1).last() == messages@[k as int]);
            }
            self.bring_in(&messages[k], &mut changes, false);
            k = k + 1;
        }
        proof {
            assert(messages@.take(messages@.len() as int) =~= messages@);
        }
        changes
    }

    /// Brings the rows in line with what a delta says: the rows for the
    /// messages it says are gone go; each message it names is refreshed or,
    /// having arrived since the folder's state, added and reported as recent;
    /// every other row is left exactly where it is.
    pub fn apply_delta(&mut self, present: &[MessageSummary], absent: &[String]) -> (changes:
        Changes)
        requires
            old(self).wf(),
        ensures
            final(self).wf(),
            final(self).state() == old(self).state(),
            final(self).rows() == delta_rows(old(self).rows(), present@, texts(absent@)),
            changes@ == delta_changes(old(self).rows(), present@, texts(absent@)),
    {
        let mut changes = Changes::new();
        let mut rows: Vec<MessageRow> = Vec::new();
        let ghost start = self.rows();
        let ghost gone = texts(absent@);
        let mut i: usize = 0;
        while i < self.rows.len()
            invariant
                i <= self.rows@.len(),
                start == rows_view(self.rows@),
                gone == texts(absent@),
                uids_distinct(start),
                rows_view(rows@) == without(start.take(i as int), gone),
                changes@ == (ChangesView {
                    removed: removed_by(start.take(i as int), gone),
                    ..no_changes()
                }),
            decreases self.rows@.len() - i,
        {
            proof {
                assert(start.take(i + 1).drop_last() =~= start.take(i as int));
                assert(start.take(i + 1).last() == self.rows@[i as int]@);
            }
            if is_gone(absent, &self.rows[i].uid) {
                changes.remove(self.rows[i].uid.as_str());
            } else {
                let ghost before = rows@;
                rows.push(copy_row(&self.rows[i]));
                proof {
                    assert(rows_view(rows@) =~= rows_view(before).push(self.rows@[i as int]@));
                }
            }
            i = i + 1;
        }
        proof {
            assert(start.take(self.rows@.len() as int) =~= start);
            lemma_without_distinct(start, gone);
        }
        self.rows = rows;
        let ghost base = self.rows();
        let mut k: usize = 0;
        while k < present.len()
            invariant
                k <= present@.len(),
                self.wf(),
                self.state() == old(self).state(),
                self.rows() == fold_rows(base, present@.take(k as int)),
                changes@ == (ChangesView {
                    added: fold_added(base, present@.take(k as int)),
                    changed: fold_changed(base, present@.take(k as int)),
                    removed: removed_by(start, gone),
                    recent: fold_added(base, present@.take(k as int)),
                }),
            decreases present@.len() - k,
        {
            proof {
                assert(present@.take(k + 1).drop_last() =~= present@.take(k as int));
                assert(present@.take(k + 1).last() == present@[k as int]);
            }
            self.bring_in(&present[k], &mut changes, true);
            k = k + 1;
        }
        proof {
            assert(present@.take(present@.len() as int) =~= present@);
        }
        changes
    }

    /// Records the state the rows are now current as of, and reports whether
    /// the summary has to be written back: not when the state is the one it
    /// already held, which is the usual answer for a mailbox nobody wrote to.
    pub fn set_state(&mut self, state: String) -> (touched: bool)
        ensures
            final(self).wf() == old(self).wf(),
            final(self).rows() == old(self).rows(),
            final(self).state() == Some(state@),
            touched == (old(self).state() != Some(state@)),
    {
        let same = match &self.state {
            Some(held) => *held == state,
            None => false,
        };
        self.state = Some(state);
        !same
    }
}

/// The format the summary's header is stored in. A header carrying any other
/// number was written by another version of this provider and is read as no
/// state at all, which costs one full listing rather than the mailbox.
pub const HEADER_VERSION: i64 = 1;

impl Summary {
    /// What the summary's header stores: the format and the state, or
    /// nothing for a summary that has never listed — which reads back as one
    /// rather than as a state that is the empty string.
    pub fn header_record(&self) -> (r: Option<(i64, String)>)
        ensures
            match self.state() {
                Some(s) => r matches Some((v, t)) && v == HEADER_VERSION && t@ == s,
                None => r is None,
            },
    {
        match &self.state {
            Some(state) => Some((HEADER_VERSION, state.clone())),
            None => None,
        }
    }

    /// Takes the state back out of a stored header: only one in this
    /// version's format with a state in it; anything else leaves the summary
    /// as it was. Reports whether the summary has to be written back.
    pub fn restore_header(&mut self, version: i64, state: Option<String>) -> (touched: bool)
        requires
            old(self).wf(),
        ensures
            final(self).wf(),
            final(self).rows() == old(self).rows(),
            match state {
                Some(s) => if version == HEADER_VERSION {
                    final(self).state() == Some(s@) && touched == (old(self).state() != Some(s@))
                } else {
                    final(self).state() == old(self).state() && !touched
                },
                None => final(self).state() == old(self).state() && !touched,
            },
    {
        if version != HEADER_VERSION {
            return false;
        }
        match state {
            Some(s) => self.set_state(s),
            None => false,
        }
    }
}

/// Adding a row under a new uid keeps the uids distinct.
proof fn lemma_push_new(rows: Seq<RowView>, r: RowView)
    requires
        uids_distinct(rows),
        !has_uid(rows, r.uid),
    ensures
        uids_distinct(rows.push(r)),
{
    let s = rows.push(r);
    assert forall|a: int, b: int| 0 <= a < b < s.len() implies (#[trigger] s[a]).uid != (
    #[trigger] s[b]).uid by {
        if b == rows.len() {
            assert(s[a] == rows[a]);
        }
    }
}

/// A kept row was a row, and the kept rows are a subsequence.
proof fn lemma_kept_distinct(rows: Seq<RowView>, msgs: Seq<MessageSummary>)
    requires
        uids_distinct(rows),
    ensures
        uids_distinct(kept(rows, msgs)),
        forall|u: Seq<char>| has_uid(kept(rows, msgs), u) <==> has_uid(rows, u) && listed(msgs, u),
    decreases rows.len(),
{
    if rows.len() > 0 {
        let init = rows.drop_last();
        assert(uids_distinct(init)) by {
            assert forall|a: int, b: int| 0 <= a < b < init.len() implies (#[trigger] init[a]).uid
                != (#[trigger] init[b]).uid by {
                assert(init[a] == rows[a] && init[b] == rows[b]);
            }
        }
        lemma_kept_distinct(init, msgs);
        let k = kept(init, msgs);
        let last = rows.last();
        assert forall|u: Seq<char>| has_uid(init, u) <==> has_uid(rows, u) && u != last.uid by {
            if has_uid(init, u) {
                let i = choose|i: int| 0 <= i < init.len() && (#[trigger] init[i]).uid == u;
                assert(rows[i] == init[i]);
                assert(rows[i].uid != rows[rows.len() - 1].uid);
            }
            if has_uid(rows, u) && u != last.uid {
                let i = choose|i: int| 0 <= i < rows.len() && (#[trigger] rows[i]).uid == u;
                assert(init[i] == rows[i]);
            }
        }
        if listed(msgs, last.uid) {
            lemma_push_new(k, last);
            assert forall|u: Seq<char>| has_uid(k.push(last), u) <==> has_uid(k, u) || u == last.uid by {
                if has_uid(k.push(last), u) {
                    let i = choose|i: int| 0 <= i < k.push(last).len() && (#[trigger] k.push(
                        last,
                    )[i]).uid == u;
                    if i < k.len() {
                        assert(k[i] == k.push(last)[i]);
                    }
                }
                if has_uid(k, u) {
                    let i = choose|i: int| 0 <= i < k.len() && (#[trigger] k[i]).uid == u;
                    assert(k.push(last)[i] == k[i]);
                }
                if u == last.uid {
                    assert(k.push(last)[k.len() as int] == last);
                }
            }
            assert(has_uid(rows, last.uid)) by {
                assert(rows[rows.len() - 1] == last);
            }
        }
    }
}

/// The rows a delta keeps are distinct, and are the rows it does not name.
proof fn lemma_without_distinct(rows: Seq<RowView>, gone: Seq<Seq<char>>)
    requires
        uids_distinct(rows),
    ensures
        uids_distinct(without(rows, gone)),
        forall|u: Seq<char>| has_uid(without(rows, gone), u) <==> has_uid(rows, u) && !gone.contains(u),
    decreases rows.len(),
{
    if rows.len() > 0 {
        let init = rows.drop_last();
        assert(uids_distinct(init)) by {
            assert forall|a: int, b: int| 0 <= a < b < init.len() implies (#[trigger] init[a]).uid
                != (#[trigger] init[b]).uid by {
                assert(init[a] == rows[a] && init[b] == rows[b]);
            }
        }
        lemma_without_distinct(init, gone);
        let k = without(init, gone);
        let last = rows.last();
        assert forall|u: Seq<char>| has_uid(init, u) <==> has_uid(rows, u) && u != last.uid by {
            if has_uid(init, u) {
                let i = choose|i: int| 0 <= i < init.len() && (#[trigger] init[i]).uid == u;
                assert(rows[i] == init[i]);
                assert(rows[i].uid != rows[rows.len() - 1].uid);
            }
            if has_uid(rows, u) && u != last.uid {
                let i = choose|i: int| 0 <= i < rows.len() && (#[trigger] rows[i]).uid == u;
                assert(init[i] == rows[i]);
            }
        }
        if !gone.contains(last.uid) {
            lemma_push_new(k, last);
            assert forall|u: Seq<char>| has_uid(k.push(last), u) <==> has_uid(k, u) || u == last.uid by {
                if has_uid(k.push(last), u) {
                    let i = choose|i: int| 0 <= i < k.push(last).len() && (#[trigger] k.push(
                        last,
                    )[i]).uid == u;
                    if i < k.len() {
                        assert(k[i] == k.push(last)[i]);
                    }
                }
                if has_uid(k, u) {
                    let i = choose|i: int| 0 <= i < k.len() && (#[trigger] k[i]).uid == u;
                    assert(k.push(last)[i] == k[i]);
                }
                if u == last.uid {
                    assert(k.push(last)[k.len() as int] == last);
                }
            }
            assert(has_uid(rows, last.uid)) by {
                assert(rows[rows.len() - 1] == last);
            }
        }
    }
}

/// Bringing messages in keeps the uids distinct, and adds exactly their uids.
proof fn lemma_fold_uids(rows: Seq<RowView>, msgs: Seq<MessageSummary>)
    requires
        uids_distinct(rows),
    ensures
        uids_distinct(fold_rows(rows, msgs)),
        forall|u: Seq<char>| has_uid(fold_rows(rows, msgs), u) <==> has_uid(rows, u) || listed(msgs, u),
    decreases msgs.len(),
{
    if msgs.len() > 0 {
        let init = msgs.drop_last();
        lemma_fold_uids(rows, init);
        lemma_step(fold_rows(rows, init), msgs.last());
        assert forall|u: Seq<char>| listed(msgs, u) <==> listed(init, u) || msgs.last().uid@ == u by {
            if listed(msgs, u) {
                let i = choose|i: int| 0 <= i < msgs.len() && (#[trigger] msgs[i]).uid@ == u;
                if i < init.len() {
                    assert(init[i] == msgs[i]);
                }
            }
            if listed(init, u) {
                let i = choose|i: int| 0 <= i < init.len() && (#[trigger] init[i]).uid@ == u;
                assert(msgs[i] == init[i]);
            }
        }
    }
}

/// A listing leaves the folder holding a row for every message it names and
/// for nothing else, one row per uid, and reports as removed exactly the rows
/// it did not name.
pub proof fn law_listing_holds_what_was_listed(rows: Seq<RowView>, msgs: Seq<MessageSummary>)
    requires
        uids_distinct(rows),
    ensures
        uids_distinct(listing_rows(rows, msgs)),
        forall|u: Seq<char>| has_uid(listing_rows(rows, msgs), u) <==> listed(msgs, u),
        forall|u: Seq<char>|
            listing_changes(rows, msgs).removed.contains(u) <==> has_uid(rows, u) && !listed(msgs, u),
{
    lemma_kept_distinct(rows, msgs);
    lemma_fold_uids(kept(rows, msgs), msgs);
    lemma_dropped(rows, msgs);
}

/// The uids a listing drops are the held ones it does not name.
proof fn lemma_dropped(rows: Seq<RowView>, msgs: Seq<MessageSummary>)
    ensures
        forall|u: Seq<char>| dropped(rows, msgs).contains(u) <==> has_uid(rows, u) && !listed(msgs, u),
    decreases rows.len(),
{
    if rows.len() > 0 {
        let init = rows.drop_last();
        lemma_dropped(init, msgs);
        let d = dropped(init, msgs);
        assert forall|u: Seq<char>| dropped(rows, msgs).contains(u) <==> has_uid(rows, u) && !listed(
            msgs,
            u,
        ) by {
            assert(has_uid(rows, u) <==> has_uid(init, u) || rows.last().uid == u) by {
                if has_uid(rows, u) {
                    let i = choose|i: int| 0 <= i < rows.len() && (#[trigger] rows[i]).uid == u;
                    if i < init.len() {
                        assert(init[i] == rows[i]);
                    }
                }
                if has_uid(init, u) {
                    let i = choose|i: int| 0 <= i < init.len() && (#[trigger] init[i]).uid == u;
                    assert(rows[i] == init[i]);
                }
                if rows.last().uid == u {
                    assert(rows[rows.len() - 1].uid == u);
                }
            }
            if !listed(msgs, rows.last().uid) {
                let dp = d.push(rows.last().uid);
                if dp.contains(u) {
                    let i = choose|i: int| 0 <= i < dp.len() && dp[i] == u;
                    if i < d.len() {
                        assert(d[i] == dp[i]);
                    }
                }
                if d.contains(u) {
                    let i = choose|i: int| 0 <= i < d.len() && d[i] == u;
                    assert(dp[i] == d[i]);
                }
                if u == rows.last().uid {
                    assert(dp[d.len() as int] == u);
                }
            }
        }
    }
}

/// Rows that are all listed are all kept, and none is dropped.
proof fn lemma_all_listed(rows: Seq<RowView>, msgs: Seq<MessageSummary>)
    requires
        forall|i: int| 0 <= i < rows.len() ==> listed(msgs, (#[trigger] rows[i]).uid),
    ensures
        kept(rows, msgs) == rows,
        dropped(rows, msgs) == Seq::<Seq<char>>::empty(),
    decreases rows.len(),
{
    if rows.len() > 0 {
        let init = rows.drop_last();
        assert forall|i: int| 0 <= i < init.len() implies listed(msgs, (#[trigger] init[i]).uid) by {
            assert(init[i] == rows[i]);
        }
        lemma_all_listed(init, msgs);
        assert(listed(msgs, rows[rows.len() - 1].uid));
        assert(init.push(rows.last()) =~= rows);
    }
}

/// Bringing in a message leaves every other uid's row where and as it was.
proof fn lemma_step_other(rows: Seq<RowView>, m: MessageSummary, u: Seq<char>)
    requires
        uids_distinct(rows),
        has_uid(rows, u),
        u != m.uid@,
    ensures
        has_uid(step(rows, m), u),
        find(step(rows, m), u) == find(rows, u),
        step(rows, m)[find(step(rows, m), u)] == rows[find(rows, u)],
{
    lemma_step(rows, m);
    let i = find(rows, u);
    let s = step(rows, m);
    assert(0 <= i < rows.len() && rows[i].uid == u);
    assert(s[i] == rows[i]);
    lemma_find_is(s, i);
}

/// Bringing in a message leaves its row as the listing made it.
proof fn lemma_step_self(rows: Seq<RowView>, m: MessageSummary)
    requires
        uids_distinct(rows),
    ensures
        find(step(rows, m), m.uid@) >= 0,
        step(rows, m)[find(step(rows, m), m.uid@)] == if find(rows, m.uid@) >= 0 {
            spec_refreshed(rows[find(rows, m.uid@)], m)
        } else {
            spec_new_row(m)
        },
{
    lemma_step(rows, m);
    let s = step(rows, m);
    let j = find(rows, m.uid@);
    if j >= 0 {
        assert(s[j].uid == m.uid@);
        lemma_find_is(s, j);
    } else {
        assert(s[rows.len() as int].uid == m.uid@);
        lemma_find_is(s, rows.len() as int);
    }
}

/// No two messages of a listing share a uid.
pub open spec fn listing_distinct(msgs: Seq<MessageSummary>) -> bool {
    forall|i: int, j: int| 0 <= i < j < msgs.len() ==> (#[trigger] msgs[i]).uid@ != (#[trigger] msgs[j]).uid@
}

/// After bringing in a listing with distinct uids, each listed message's row
/// is one that a second refresh by that message leaves as it is.
proof fn lemma_fold_fixpoints(rows: Seq<RowView>, msgs: Seq<MessageSummary>)
    requires
        uids_distinct(rows),
        listing_distinct(msgs),
    ensures
        forall|k: int|
            0 <= k < msgs.len() ==> {
                let f = fold_rows(rows, msgs);
                let j = find(f, (#[trigger] msgs[k]).uid@);
                j >= 0 && spec_refreshed(f[j], msgs[k]) == f[j]
            },
    decreases msgs.len(),
{
    if msgs.len() > 0 {
        let init = msgs.drop_last();
        let m = msgs.last();
        assert(listing_distinct(init)) by {
            assert forall|a: int, b: int| 0 <= a < b < init.len() implies (#[trigger] init[a]).uid@
                != (#[trigger] init[b]).uid@ by {
                assert(init[a] == msgs[a] && init[b] == msgs[b]);
            }
        }
        lemma_fold_fixpoints(rows, init);
        lemma_fold_uids(rows, init);
        let prev = fold_rows(rows, init);
        let f = fold_rows(rows, msgs);
        assert(f == step(prev, m));
        lemma_step_self(prev, m);
        let jm = find(prev, m.uid@);
        if jm >= 0 {
            law_refresh_is_idempotent(prev[jm], m);
        } else {
            law_refresh_is_idempotent(prev[0], m);
        }
        assert forall|k: int| 0 <= k < msgs.len() implies {
            let j = find(f, (#[trigger] msgs[k]).uid@);
            j >= 0 && spec_refreshed(f[j], msgs[k]) == f[j]
        } by {
            if k < init.len() {
                assert(init[k] == msgs[k]);
                assert(msgs[k].uid@ != msgs[msgs.len() - 1].uid@);
                let jk = find(prev, init[k].uid@);
                assert(jk >= 0 && spec_refreshed(prev[jk], init[k]) == prev[jk]);
                assert(prev[jk].uid == init[k].uid@) by {
                    assert(has_uid(prev, init[k].uid@));
                }
                lemma_step_other(prev, m, msgs[k].uid@);
            }
        }
    }
}

/// Bringing in messages whose rows are all fixpoints moves and adds nothing.
proof fn lemma_fold_of_fixpoints(rows: Seq<RowView>, msgs: Seq<MessageSummary>)
    requires
        uids_distinct(rows),
        forall|k: int|
            0 <= k < msgs.len() ==> {
                let j = find(rows, (#[trigger] msgs[k]).uid@);
                j >= 0 && spec_refreshed(rows[j], msgs[k]) == rows[j]
            },
    ensures
        fold_rows(rows, msgs) == rows,
        fold_added(rows, msgs) == Seq::<Seq<char>>::empty(),
        fold_changed(rows, msgs) == Seq::<Seq<char>>::empty(),
    decreases msgs.len(),
{
    if msgs.len() > 0 {
        let init = msgs.drop_last();
        assert forall|k: int| 0 <= k < init.len() implies {
            let j = find(rows, (#[trigger] init[k]).uid@);
            j >= 0 && spec_refreshed(rows[j], init[k]) == rows[j]
        } by {
            assert(init[k] == msgs[k]);
        }
        lemma_fold_of_fixpoints(rows, init);
        let m = msgs.last();
        assert(m == msgs[msgs.len() - 1]);
        let j = find(rows, m.uid@);
        assert(j >= 0 && spec_refreshed(rows[j], m) == rows[j]);
        assert(rows.update(j, rows[j]) =~= rows);
    }
}

/// Listing a mailbox again, when nothing about it changed, changes nothing
/// and reports nothing: the message list a user is reading is not redrawn on
/// every poll. (A listing names each message once.)
pub proof fn law_relisting_reports_nothing(rows: Seq<RowView>, msgs: Seq<MessageSummary>)
    requires
        uids_distinct(rows),
        listing_distinct(msgs),
    ensures
        listing_rows(listing_rows(rows, msgs), msgs) == listing_rows(rows, msgs),
        listing_changes(listing_rows(rows, msgs), msgs) == no_changes(),
{
    let once = listing_rows(rows, msgs);
    law_listing_holds_what_was_listed(rows, msgs);
    assert forall|i: int| 0 <= i < once.len() implies listed(msgs, (#[trigger] once[i]).uid) by {
        assert(has_uid(once, once[i].uid));
    }
    lemma_all_listed(once, msgs);
    lemma_kept_distinct(rows, msgs);
    lemma_fold_fixpoints(kept(rows, msgs), msgs);
    lemma_fold_of_fixpoints(once, msgs);
    assert(listing_changes(once, msgs).recent =~= Seq::<Seq<char>>::empty());
}

/// A delta leaves every row it does not name exactly as it was.
pub proof fn law_delta_leaves_the_rest(
    rows: Seq<RowView>,
    present: Seq<MessageSummary>,
    absent: Seq<Seq<char>>,
    u: Seq<char>,
)
    requires
        uids_distinct(rows),
        has_uid(rows, u),
        !listed(present, u),
        !absent.contains(u),
    ensures
        has_uid(delta_rows(rows, present, absent), u),
        delta_rows(rows, present, absent)[find(delta_rows(rows, present, absent), u)] == rows[find(
            rows,
            u,
        )],
{
    lemma_without_keeps(rows, absent, u);
    lemma_without_distinct(rows, absent);
    lemma_fold_keeps(without(rows, absent), present, u);
}

/// A row the delta does not say is gone is still there, as it was.
proof fn lemma_without_keeps(rows: Seq<RowView>, gone: Seq<Seq<char>>, u: Seq<char>)
    requires
        uids_distinct(rows),
        has_uid(rows, u),
        !gone.contains(u),
    ensures
        has_uid(without(rows, gone), u),
        without(rows, gone)[find(without(rows, gone), u)] == rows[find(rows, u)],
    decreases rows.len(),
{
    lemma_without_distinct(rows, gone);
    let init = rows.drop_last();
    let i = find(rows, u);
    assert(uids_distinct(init)) by {
        assert forall|a: int, b: int| 0 <= a < b < init.len() implies (#[trigger] init[a]).uid != (
        #[trigger] init[b]).uid by {
            assert(init[a] == rows[a] && init[b] == rows[b]);
        }
    }
    let w = without(rows, gone);
    if i == rows.len() - 1 {
        let k = without(init, gone);
        assert(w == k.push(rows.last()));
        assert(w[k.len() as int].uid == u);
        lemma_find_is(w, k.len() as int);
    } else {
        assert(init[i] == rows[i]);
        assert(has_uid(init, u));
        lemma_find_is(init, i);
        lemma_without_keeps(init, gone, u);
        let k = without(init, gone);
        let ik = find(k, u);
        if gone.contains(rows.last().uid) {
            assert(w == k);
        } else {
            assert(w == k.push(rows.last()));
            assert(w[ik] == k[ik]);
            lemma_find_is(w, ik);
        }
    }
}

/// Bringing in messages leaves a row they do not name as it was.
proof fn lemma_fold_keeps(rows: Seq<RowView>, msgs: Seq<MessageSummary>, u: Seq<char>)
    requires
        uids_distinct(rows),
        has_uid(rows, u),
        !listed(msgs, u),
    ensures
        has_uid(fold_rows(rows, msgs), u),
        fold_rows(rows, msgs)[find(fold_rows(rows, msgs), u)] == rows[find(rows, u)],
    decreases msgs.len(),
{
    if msgs.len() > 0 {
        let init = msgs.drop_last();
        assert(!listed(init, u)) by {
            if listed(init, u) {
                let i = choose|i: int| 0 <= i < init.len() && (#[trigger] init[i]).uid@ == u;
                assert(msgs[i] == init[i]);
            }
        }
        lemma_fold_keeps(rows, init, u);
        lemma_fold_uids(rows, init);
        assert(msgs.last().uid@ != u) by {
            assert(msgs[msgs.len() - 1] == msgs.last());
        }
        lemma_step_other(fold_rows(rows, init), msgs.last(), u);
    }
}

} // verus!
