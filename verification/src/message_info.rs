//! One summary row: what Camel keeps about a message, and what it keeps of it
//! that only this provider knows.
//!
//! Camel keeps a message's state as bits in one flags word where JMAP keeps it
//! as a set of keywords. The keywords Camel has a bit for become the word; the
//! rest become Camel's user flags, which Evolution shows as labels. Beside them
//! the row remembers the keywords the last listing found on the server, because
//! a flag change goes on the wire as a difference and the row, once the user
//! has clicked, only holds the *after* of it.
//!
//! The word holds more than the server's answer: `DELETED` is a mark the user
//! made that JMAP has no keyword for, and `FOLDER_FLAGGED` says that a change
//! of the user's has not reached the server yet. A listing rewrites only the
//! bits this provider is the authority on, and around an outstanding change
//! it rewrites nothing the user changed.

use vstd::prelude::*;

verus! {

/// `CAMEL_MESSAGE_ANSWERED`.
pub const ANSWERED: u32 = 0x1;
/// `CAMEL_MESSAGE_DELETED`: a local mark, JMAP has no keyword for it.
pub const DELETED: u32 = 0x2;
/// `CAMEL_MESSAGE_DRAFT`.
pub const DRAFT: u32 = 0x4;
/// `CAMEL_MESSAGE_FLAGGED`.
pub const FLAGGED: u32 = 0x8;
/// `CAMEL_MESSAGE_SEEN`.
pub const SEEN: u32 = 0x10;
/// `CAMEL_MESSAGE_ATTACHMENTS`.
pub const ATTACHMENTS: u32 = 0x20;
/// `CAMEL_MESSAGE_JUNK`.
pub const JUNK: u32 = 0x80;
/// `CAMEL_MESSAGE_NOTJUNK`.
pub const NOTJUNK: u32 = 0x200;
/// `CAMEL_MESSAGE_FORWARDED`.
pub const FORWARDED: u32 = 0x400;
/// `CAMEL_MESSAGE_FOLDER_FLAGGED`: a change of the user's is waiting to be
/// written to the server.
pub const FOLDER_FLAGGED: u32 = 0x10000;

/// The bits of the flags word this provider is the authority on; everything
/// else in the word is Camel's and is never rewritten by a listing.
pub const FLAGS_FROM_JMAP: u32 = 0x6bd;

/// The keywords Camel has a bit for, one field per bit.
#[derive(Clone, Copy, Debug, PartialEq, Eq, Structural)]
pub struct MessageFlags {
    pub seen: bool,
    pub answered: bool,
    pub flagged: bool,
    pub draft: bool,
    pub forwarded: bool,
    pub junk: bool,
    pub not_junk: bool,
    pub attachments: bool,
}

/// `v` when `b` holds, nothing otherwise.
pub open spec fn bit_if(b: bool, v: u32) -> u32 {
    if b {
        v
    } else {
        0
    }
}

/// The flags word for `f`.
pub open spec fn spec_flags_word(f: MessageFlags) -> u32 {
    bit_if(f.seen, SEEN) | bit_if(f.answered, ANSWERED) | bit_if(f.flagged, FLAGGED) | bit_if(
        f.draft,
        DRAFT,
    ) | bit_if(f.forwarded, FORWARDED) | bit_if(f.junk, JUNK) | bit_if(f.not_junk, NOTJUNK)
        | bit_if(f.attachments, ATTACHMENTS)
}

/// The keywords a flags word claims.
pub open spec fn spec_word_flags(w: u32) -> MessageFlags {
    MessageFlags {
        seen: w & SEEN != 0,
        answered: w & ANSWERED != 0,
        flagged: w & FLAGGED != 0,
        draft: w & DRAFT != 0,
        forwarded: w & FORWARDED != 0,
        junk: w & JUNK != 0,
        not_junk: w & NOTJUNK != 0,
        attachments: w & ATTACHMENTS != 0,
    }
}

/// The keywords Camel has a bit for, as that word. Everything else in the
/// word is Camel's: `DELETED` because JMAP has no deleted keyword, `SECURE`
/// and `ANSWERED_ALL` because they are conclusions drawn from a fetched
/// message.
pub fn flags_word(flags: &MessageFlags) -> (w: u32)
    ensures
        w == spec_flags_word(*flags),
{
    (if flags.seen {
        SEEN
    } else {
        0
    }) | (if flags.answered {
        ANSWERED
    } else {
        0
    }) | (if flags.flagged {
        FLAGGED
    } else {
        0
    }) | (if flags.draft {
        DRAFT
    } else {
        0
    }) | (if flags.forwarded {
        FORWARDED
    } else {
        0
    }) | (if flags.junk {
        JUNK
    } else {
        0
    }) | (if flags.not_junk {
        NOTJUNK
    } else {
        0
    }) | (if flags.attachments {
        ATTACHMENTS
    } else {
        0
    })
}

/// The keywords a row's flags word claims now — where the user's click lands.
pub fn word_flags(w: u32) -> (f: MessageFlags)
    ensures
        f == spec_word_flags(w),
{
    MessageFlags {
        seen: w & SEEN != 0,
        answered: w & ANSWERED != 0,
        flagged: w & FLAGGED != 0,
        draft: w & DRAFT != 0,
        forwarded: w & FORWARDED != 0,
        junk: w & JUNK != 0,
        not_junk: w & NOTJUNK != 0,
        attachments: w & ATTACHMENTS != 0,
    }
}

/// Each keyword bit of a word made of keyword bits is the keyword it was made
/// of, and nothing outside the keyword bits is set.
proof fn lemma_word_bits(
    s: bool,
    a: bool,
    fl: bool,
    d: bool,
    fo: bool,
    j: bool,
    n: bool,
    at: bool,
    word: u32,
) by (bit_vector)
    requires
        word == (if s { 0x10u32 } else { 0 }) | (if a { 0x1u32 } else { 0 }) | (if fl { 0x8u32 } else { 0 })
            | (if d { 0x4u32 } else { 0 }) | (if fo { 0x400u32 } else { 0 }) | (if j { 0x80u32 } else {
            0
        }) | (if n { 0x200u32 } else { 0 }) | (if at { 0x20u32 } else { 0 }),
    ensures
        (word & 0x10 != 0) == s,
        (word & 0x1 != 0) == a,
        (word & 0x8 != 0) == fl,
        (word & 0x4 != 0) == d,
        (word & 0x400 != 0) == fo,
        (word & 0x80 != 0) == j,
        (word & 0x200 != 0) == n,
        (word & 0x20 != 0) == at,
        word & !0x6bdu32 == 0,
{
}

/// A word rebuilt from its own keyword bits is its keyword bits.
proof fn lemma_word_of_bits(w: u32) by (bit_vector)
    ensures
        (if w & 0x10 != 0 { 0x10u32 } else { 0 }) | (if w & 0x1 != 0 { 0x1u32 } else { 0 }) | (if w
            & 0x8 != 0 { 0x8u32 } else { 0 }) | (if w & 0x4 != 0 { 0x4u32 } else { 0 }) | (if w
            & 0x400 != 0 { 0x400u32 } else { 0 }) | (if w & 0x80 != 0 { 0x80u32 } else { 0 }) | (if w
            & 0x200 != 0 { 0x200u32 } else { 0 }) | (if w & 0x20 != 0 { 0x20u32 } else { 0 }) == w
            & 0x6bd,
{
}

/// The word and the keywords say the same thing: reading a word back gives
/// the keywords it was made of, and making a word of what a word claims keeps
/// exactly the bits this provider is the authority on.
pub proof fn law_flags_word_round_trip(f: MessageFlags, w: u32)
    ensures
        spec_word_flags(spec_flags_word(f)) == f,
        spec_flags_word(spec_word_flags(w)) == w & FLAGS_FROM_JMAP,
        spec_flags_word(f) & !FLAGS_FROM_JMAP == 0,
{
    lemma_word_bits(
        f.seen,
        f.answered,
        f.flagged,
        f.draft,
        f.forwarded,
        f.junk,
        f.not_junk,
        f.attachments,
        spec_flags_word(f),
    );
    lemma_word_of_bits(w);
}

/// One address of a message header: a display name, if any, and the address.
#[derive(Debug, PartialEq, Eq)]
pub struct EmailAddress {
    pub name: Option<String>,
    pub email: String,
}

/// One row of a mailbox listing: what `Email/get` says about one message.
///
/// Everything but the keywords is immutable (RFC 8621 §4.1): it is written
/// into a row once, when the row is made.
#[derive(Debug, PartialEq, Eq)]
pub struct MessageSummary {
    /// The `Email` id, which is the row's uid.
    pub uid: String,
    pub subject: Option<String>,
    pub from: Vec<EmailAddress>,
    pub to: Vec<EmailAddress>,
    pub cc: Vec<EmailAddress>,
    pub preview: Option<String>,
    pub size: u32,
    pub received_at: Option<i64>,
    pub sent_at: Option<i64>,
    pub message_id: Option<String>,
    /// The ancestors, oldest first, as the `References` header lists them.
    pub references: Vec<String>,
    /// The keywords Camel has a bit for.
    pub flags: MessageFlags,
    /// The keywords it has none for, which are the labels.
    pub tags: Vec<String>,
}

/// A message's keywords: the ones Camel has a bit for, and the rest.
#[derive(Debug, PartialEq, Eq)]
pub struct Keywords {
    pub flags: MessageFlags,
    pub tags: Vec<String>,
}

/// The part of a summary row a listing or a write can change: its uid, its
/// flags word, its labels, and the keywords the server was last seen holding.
#[derive(Debug, PartialEq, Eq)]
pub struct MessageRow {
    pub uid: String,
    pub flags: u32,
    pub labels: Vec<String>,
    pub server: Keywords,
}

/// The strings of `v`, as a set: what Camel's user flags are.
pub open spec fn text_set(v: Seq<String>) -> Set<Seq<char>> {
    Set::new(|t: Seq<char>| exists|i: int| 0 <= i < v.len() && (#[trigger] v[i])@ == t)
}

/// A message's keywords as values.
pub struct KeywordsView {
    pub flags: MessageFlags,
    pub tags: Set<Seq<char>>,
}

impl View for Keywords {
    type V = KeywordsView;

    open spec fn view(&self) -> KeywordsView {
        KeywordsView { flags: self.flags, tags: text_set(self.tags@) }
    }
}

/// A row as values.
pub struct RowView {
    pub uid: Seq<char>,
    pub flags: u32,
    pub labels: Set<Seq<char>>,
    pub server: KeywordsView,
}

impl View for MessageRow {
    type V = RowView;

    open spec fn view(&self) -> RowView {
        RowView {
            uid: self.uid@,
            flags: self.flags,
            labels: text_set(self.labels@),
            server: self.server@,
        }
    }
}

/// Whether a row's word says a change of the user's is still to be written.
pub open spec fn pending(flags: u32) -> bool {
    flags & FOLDER_FLAGGED != 0
}

/// The row a listed message starts as: the listing's keywords as the word and
/// the labels, and as what the server holds. Not pending: the row exists
/// because the server described it.
pub open spec fn spec_new_row(m: MessageSummary) -> RowView {
    RowView {
        uid: m.uid@,
        flags: spec_flags_word(m.flags),
        labels: text_set(m.tags@),
        server: KeywordsView { flags: m.flags, tags: text_set(m.tags@) },
    }
}

/// The word a listing leaves a row with: the bits outside the provider's
/// authority as they were; the provider's bits as listed — except, on a row
/// with a change still to be written, the bits the user changed, which keep
/// the user's value.
pub open spec fn refreshed_word(row: u32, server: MessageFlags, listed: MessageFlags) -> u32 {
    let l = spec_flags_word(listed);
    if !pending(row) {
        (row & !FLAGS_FROM_JMAP) | l
    } else {
        let d = (row ^ spec_flags_word(server)) & FLAGS_FROM_JMAP;
        (row & !FLAGS_FROM_JMAP) | (row & d) | (l & !d)
    }
}

/// Whether a label survives a listing: as listed — except, on a row with a
/// change still to be written, a label the user put on or took off.
pub open spec fn wanted_label(
    row: Set<Seq<char>>,
    server: Set<Seq<char>>,
    listed: Set<Seq<char>>,
    pending: bool,
    t: Seq<char>,
) -> bool {
    if pending && row.contains(t) != server.contains(t) {
        row.contains(t)
    } else {
        listed.contains(t)
    }
}

/// The labels a listing leaves a row with.
pub open spec fn refreshed_labels(
    row: Set<Seq<char>>,
    server: Set<Seq<char>>,
    listed: Set<Seq<char>>,
    pending: bool,
) -> Set<Seq<char>> {
    Set::new(|t: Seq<char>| wanted_label(row, server, listed, pending, t))
}

/// What a later listing of the same message does to its row: the word and
/// the labels as above, and the server's keywords renewed to the listing's.
pub open spec fn spec_refreshed(r: RowView, m: MessageSummary) -> RowView {
    RowView {
        uid: r.uid,
        flags: refreshed_word(r.flags, r.server.flags, m.flags),
        labels: refreshed_labels(r.labels, r.server.tags, text_set(m.tags@), pending(r.flags)),
        server: KeywordsView { flags: m.flags, tags: text_set(m.tags@) },
    }
}

/// Whether a listing moved something a message list draws.
pub open spec fn moved(before: RowView, after: RowView) -> bool {
    before.flags != after.flags || before.labels != after.labels
}

/// The ancestors in the order Camel's threader walks them: nearest first.
/// `References` lists them oldest first, with the parent last, so the list is
/// reversed; filled in header order, every reply in a long thread would hang
/// off the root of its conversation instead of off its parent.
pub fn thread_order(references: &Vec<String>) -> (v: Vec<String>)
    ensures
        v@ == references@.reverse(),
{
    let mut v: Vec<String> = Vec::new();
    let mut i: usize = references.len();
    while i > 0
        invariant
            i <= references@.len(),
            v@ =~= references@.subrange(i as int, references@.len() as int).reverse(),
        decreases i,
    {
        i = i - 1;
        v.push(references[i].clone());
    }
    proof {
        assert(references@.subrange(0, references@.len() as int) =~= references@);
    }
    v
}

/// A copy of `v`.
pub fn copy_texts(v: &Vec<String>) -> (c: Vec<String>)
    ensures
        c@ == v@,
{
    let mut c: Vec<String> = Vec::new();
    let mut i: usize = 0;
    while i < v.len()
        invariant
            i <= v@.len(),
            c@ =~= v@.take(i as int),
        decreases v@.len() - i,
    {
        c.push(v[i].clone());
        i = i + 1;
    }
    proof {
        assert(v@.take(v@.len() as int) =~= v@);
    }
    c
}

/// Whether `t` is one of `v`.
pub fn has_text(v: &Vec<String>, t: &String) -> (r: bool)
    ensures
        r == text_set(v@).contains(t@),
{
    let mut i: usize = 0;
    while i < v.len()
        invariant
            i <= v@.len(),
            forall|j: int| 0 <= j < i ==> (#[trigger] v@[j])@ != t@,
        decreases v@.len() - i,
    {
        if v[i] == *t {
            assert(v@[i as int]@ == t@);
            return true;
        }
        i = i + 1;
    }
    false
}

/// Whether every string of `a` is one of `b`.
fn all_in(a: &Vec<String>, b: &Vec<String>) -> (r: bool)
    ensures
        r == text_set(a@).subset_of(text_set(b@)),
{
    let mut i: usize = 0;
    while i < a.len()
        invariant
            i <= a@.len(),
            forall|j: int| 0 <= j < i ==> text_set(b@).contains((#[trigger] a@[j])@),
        decreases a@.len() - i,
    {
        if !has_text(b, &a[i]) {
            assert(text_set(a@).contains(a@[i as int]@));
            return false;
        }
        i = i + 1;
    }
    true
}

/// Whether `a` and `b` hold the same strings, in whatever order and however
/// often: Camel's own verdict on whether a set of user flags changed.
pub fn same_texts(a: &Vec<String>, b: &Vec<String>) -> (r: bool)
    ensures
        r == (text_set(a@) == text_set(b@)),
{
    let r = all_in(a, b) && all_in(b, a);
    proof {
        if r {
            assert(text_set(a@) =~= text_set(b@));
        }
    }
    r
}

/// A listed message's keywords.
fn listed_keywords(m: &MessageSummary) -> (k: Keywords)
    ensures
        k@ == (KeywordsView { flags: m.flags, tags: text_set(m.tags@) }),
{
    Keywords { flags: m.flags, tags: copy_texts(&m.tags) }
}

/// The row a listed message starts as.
pub fn new_row(m: &MessageSummary) -> (r: MessageRow)
    ensures
        r@ == spec_new_row(*m),
{
    MessageRow {
        uid: m.uid.clone(),
        flags: flags_word(&m.flags),
        labels: copy_texts(&m.tags),
        server: listed_keywords(m),
    }
}

/// Adds to `out` every string of `from` that survives the listing.
fn push_wanted(
    out: &mut Vec<String>,
    from: &Vec<String>,
    row: &Vec<String>,
    server: &Vec<String>,
    listed: &Vec<String>,
    is_pending: bool,
)
    ensures
        forall|t: Seq<char>|
            #[trigger] text_set(final(out)@).contains(t) <==> text_set(old(out)@).contains(t) || (text_set(
                from@,
            ).contains(t) && wanted_label(
                text_set(row@),
                text_set(server@),
                text_set(listed@),
                is_pending,
                t,
            )),
{
    let ghost start = out@;
    let mut i: usize = 0;
    while i < from.len()
        invariant
            i <= from@.len(),
            forall|t: Seq<char>|
                text_set(out@).contains(t) <==> text_set(start).contains(t) || (text_set(
                    from@.take(i as int),
                ).contains(t) && wanted_label(
                    text_set(row@),
                    text_set(server@),
                    text_set(listed@),
                    is_pending,
                    t,
                )),
        decreases from@.len() - i,
    {
        let t = &from[i];
        let in_row = has_text(row, t);
        let in_server = has_text(server, t);
        let keep = if is_pending && in_row != in_server {
            in_row
        } else {
            has_text(listed, t)
        };
        let ghost before = out@;
        if keep {
            out.push(t.clone());
        }
        proof {
            let pre = from@.take(i as int);
            let post = from@.take(i + 1);
            assert forall|x: Seq<char>| text_set(post).contains(x) <==> text_set(pre).contains(x)
                || x == from@[i as int]@ by {
                if text_set(post).contains(x) {
                    let j = choose|j: int| 0 <= j < post.len() && (#[trigger] post[j])@ == x;
                    if j < i {
                        assert(pre[j] == post[j]);
                    }
                }
                if text_set(pre).contains(x) {
                    let j = choose|j: int| 0 <= j < pre.len() && (#[trigger] pre[j])@ == x;
                    assert(post[j] == pre[j]);
                }
                if x == from@[i as int]@ {
                    assert(post[i as int] == from@[i as int]);
                }
            }
            assert forall|x: Seq<char>| text_set(out@).contains(x) <==> text_set(before).contains(x)
                || (keep && x == from@[i as int]@) by {
                if text_set(out@).contains(x) {
                    let j = choose|j: int| 0 <= j < out@.len() && (#[trigger] out@[j])@ == x;
                    if j < before.len() {
                        assert(before[j] == out@[j]);
                    }
                }
                if text_set(before).contains(x) {
                    let j = choose|j: int| 0 <= j < before.len() && (#[trigger] before[j])@ == x;
                    assert(out@[j] == before[j]);
                }
                if keep && x == from@[i as int]@ {
                    assert(out@[before.len() as int] == from@[i as int]);
                }
            }
            let rs = text_set(row@);
            let ss = text_set(server@);
            let ls = text_set(listed@);
            assert(keep == wanted_label(rs, ss, ls, is_pending, from@[i as int]@));
            assert forall|x: Seq<char>| text_set(out@).contains(x) <==> text_set(start).contains(x)
                || (text_set(post).contains(x) && wanted_label(rs, ss, ls, is_pending, x)) by {
                assert(text_set(before).contains(x) <==> text_set(start).contains(x) || (text_set(
                    pre,
                ).contains(x) && wanted_label(rs, ss, ls, is_pending, x)));
            }
        }
        i = i + 1;
    }
    proof {
        assert(from@.take(from@.len() as int) =~= from@);
    }
}

/// Rewrites what a later listing of the same message changes about its row,
/// and reports whether the message list has anything to redraw for it.
///
/// The word keeps every bit outside the provider's authority — `DELETED` and
/// `FOLDER_FLAGGED` are marks the user made — and a row with a change still to
/// be written keeps that change: the listing is replayed around it rather than
/// written over it, so what the next write finds is still the difference the
/// user made. The server's keywords are renewed either way, and are not part
/// of the answer: they are not a column the message list draws.
pub fn refresh_row(row: &mut MessageRow, m: &MessageSummary) -> (changed: bool)
    ensures
        final(row)@ == spec_refreshed(old(row)@, *m),
        changed == moved(old(row)@, final(row)@),
{
    let is_pending = row.flags & FOLDER_FLAGGED != 0;
    let listed = flags_word(&m.flags);
    let server = flags_word(&row.server.flags);
    let word = if !is_pending {
        (row.flags & !FLAGS_FROM_JMAP) | listed
    } else {
        let d = (row.flags ^ server) & FLAGS_FROM_JMAP;
        (row.flags & !FLAGS_FROM_JMAP) | (row.flags & d) | (listed & !d)
    };
    let mut labels: Vec<String> = Vec::new();
    push_wanted(&mut labels, &m.tags, &row.labels, &row.server.tags, &m.tags, is_pending);
    let ghost first = labels@;
    push_wanted(&mut labels, &row.labels, &row.labels, &row.server.tags, &m.tags, is_pending);
    let ghost old_row = row@;
    proof {
        let rs = old_row.labels;
        let ss = old_row.server.tags;
        let ls = text_set(m.tags@);
        let target = refreshed_labels(rs, ss, ls, is_pending);
        assert forall|t: Seq<char>| text_set(labels@).contains(t) <==> target.contains(t) by {
            assert(text_set(labels@).contains(t) <==> text_set(first).contains(t) || (rs.contains(t)
                && wanted_label(rs, ss, ls, is_pending, t)));
            assert(text_set(first).contains(t) <==> text_set(Seq::<String>::empty()).contains(t)
                || (ls.contains(t) && wanted_label(rs, ss, ls, is_pending, t)));
            assert(!text_set(Seq::<String>::empty()).contains(t));
        }
        assert(text_set(labels@) =~= target);
    }
    let flags_moved = word != row.flags;
    let labels_moved = !same_texts(&labels, &row.labels);
    row.flags = word;
    row.labels = labels;
    row.server = listed_keywords(m);
    flags_moved || labels_moved
}

/// The word a listing leaves, bit by bit, as the bit-vector solver reads it.
proof fn lemma_refreshed_bits(r: u32, s: u32, l: u32) by (bit_vector)
    requires
        l & !0x6bdu32 == 0,
        s & !0x6bdu32 == 0,
    ensures
        ((r & !0x6bdu32) | l) & !0x6bdu32 == r & !0x6bdu32,
        ((r & !0x6bdu32) | l) & 0x6bdu32 == l,
        ((r & !0x6bdu32) | (r & ((r ^ s) & 0x6bdu32)) | (l & !((r ^ s) & 0x6bdu32))) & !0x6bdu32 == r
            & !0x6bdu32,
        ((r & !0x6bdu32) | (r & ((r ^ s) & 0x6bdu32)) | (l & !((r ^ s) & 0x6bdu32))) & ((r ^ s)
            & 0x6bdu32) == r & ((r ^ s) & 0x6bdu32),
        ((r & !0x6bdu32) | (r & ((r ^ s) & 0x6bdu32)) | (l & !((r ^ s) & 0x6bdu32))) & 0x6bdu32 & !((
        r ^ s) & 0x6bdu32) == l & !((r ^ s) & 0x6bdu32),
{
}

/// A second refresh by the same listing changes nothing, on either kind of
/// row, as the bit-vector solver reads it.
proof fn lemma_refreshed_twice(r: u32, s: u32, l: u32) by (bit_vector)
    requires
        l & !0x6bdu32 == 0,
        s & !0x6bdu32 == 0,
    ensures
        ((((r & !0x6bdu32) | l) & !0x6bdu32) | l) == (r & !0x6bdu32) | l,
        ({
            let w = (r & !0x6bdu32) | (r & ((r ^ s) & 0x6bdu32)) | (l & !((r ^ s) & 0x6bdu32));
            (w & !0x6bdu32) | (w & ((w ^ l) & 0x6bdu32)) | (l & !((w ^ l) & 0x6bdu32)) == w
        }),
        ((r & !0x6bdu32) | l) & 0x10000 == r & 0x10000,
        ((r & !0x6bdu32) | (r & ((r ^ s) & 0x6bdu32)) | (l & !((r ^ s) & 0x6bdu32))) & 0x10000 == r
            & 0x10000,
        l & 0x10000 == 0,
        (l & !0x6bdu32) | l == l,
{
}

/// A listing never touches a bit outside the provider's authority — the
/// user's `DELETED`, the pending-write mark — and it renews the server's
/// keywords to what it found.
pub proof fn law_refresh_keeps_local_marks(r: RowView, m: MessageSummary)
    ensures
        spec_refreshed(r, m).flags & !FLAGS_FROM_JMAP == r.flags & !FLAGS_FROM_JMAP,
        spec_refreshed(r, m).server == (KeywordsView { flags: m.flags, tags: text_set(m.tags@) }),
        spec_refreshed(r, m).uid == r.uid,
{
    law_flags_word_round_trip(m.flags, 0);
    law_flags_word_round_trip(r.server.flags, 0);
    lemma_refreshed_bits(r.flags, spec_flags_word(r.server.flags), spec_flags_word(m.flags));
}

/// On a row with nothing waiting to be written the server is the authority:
/// the listing's keywords become the row's bits and labels. On a row with a
/// change of the user's still to be written, every bit and label the user
/// changed keeps the user's value, and only the rest follow the listing —
/// so the change that reaches the server is still the one the user made.
pub proof fn law_refresh_keeps_the_users_change(r: RowView, m: MessageSummary)
    ensures
        !pending(r.flags) ==> spec_refreshed(r, m).flags & FLAGS_FROM_JMAP == spec_flags_word(
            m.flags,
        ),
        !pending(r.flags) ==> spec_refreshed(r, m).labels == text_set(m.tags@),
        pending(r.flags) ==> ({
            let d = (r.flags ^ spec_flags_word(r.server.flags)) & FLAGS_FROM_JMAP;
            &&& spec_refreshed(r, m).flags & d == r.flags & d
            &&& spec_refreshed(r, m).flags & FLAGS_FROM_JMAP & !d == spec_flags_word(m.flags) & !d
        }),
        pending(r.flags) ==> forall|t: Seq<char>|
            r.labels.contains(t) != r.server.tags.contains(t) ==> (spec_refreshed(
                r,
                m,
            ).labels.contains(t) == r.labels.contains(t)),
        pending(r.flags) ==> forall|t: Seq<char>|
            r.labels.contains(t) == r.server.tags.contains(t) ==> (spec_refreshed(
                r,
                m,
            ).labels.contains(t) == text_set(m.tags@).contains(t)),
{
    law_flags_word_round_trip(m.flags, 0);
    law_flags_word_round_trip(r.server.flags, 0);
    lemma_refreshed_bits(r.flags, spec_flags_word(r.server.flags), spec_flags_word(m.flags));
    if !pending(r.flags) {
        assert(spec_refreshed(r, m).labels =~= text_set(m.tags@));
    }
}

/// A refresh reports a change exactly when it moved what a message list
/// draws: the word or the labels. In particular a row whose labels the listing
/// changed is reported, whether or not its word moved too, and on a row with
/// nothing pending any listing whose keywords are not the row's labels is
/// reported.
pub proof fn law_a_refresh_reports_what_it_moved(r: RowView, m: MessageSummary)
    ensures
        spec_refreshed(r, m).labels != r.labels ==> moved(r, spec_refreshed(r, m)),
        spec_refreshed(r, m).flags != r.flags ==> moved(r, spec_refreshed(r, m)),
        !moved(r, spec_refreshed(r, m)) ==> spec_refreshed(r, m).flags == r.flags
            && spec_refreshed(r, m).labels == r.labels,
        !pending(r.flags) && text_set(m.tags@) != r.labels ==> moved(r, spec_refreshed(r, m)),
{
    law_refresh_keeps_the_users_change(r, m);
}

/// Refreshing a row by the listing it was just refreshed by, or made from,
/// leaves it as it is: a listing applied twice moves nothing the second time.
pub proof fn law_refresh_is_idempotent(r: RowView, m: MessageSummary)
    ensures
        spec_refreshed(spec_refreshed(r, m), m) == spec_refreshed(r, m),
        spec_refreshed(spec_new_row(m), m) == spec_new_row(m),
{
    let l = spec_flags_word(m.flags);
    law_flags_word_round_trip(m.flags, 0);
    law_flags_word_round_trip(r.server.flags, 0);
    lemma_refreshed_twice(r.flags, spec_flags_word(r.server.flags), l);
    let once = spec_refreshed(r, m);
    assert(pending(once.flags) == pending(r.flags));
    assert(spec_refreshed(once, m).labels =~= once.labels);
    assert(spec_refreshed(spec_new_row(m), m).labels =~= text_set(m.tags@));
}

} // verus!
