//! A folder and the server meeting: which question a refresh asks, and what
//! each of the three answers does to the folder's rows.
//!
//! A refresh is a poll, and nearly every one finds a mailbox nobody touched.
//! So a folder that remembers the state its rows are current as of asks what
//! changed since that state — one `Email/changes`, and for the usual answer
//! nothing else — and only a folder that remembers none lists the mailbox.
//! The state is recorded after the rows it describes, never before: a folder
//! claiming a state it had not applied would never hear about the changes in
//! between.

use vstd::prelude::*;

use crate::changes::{no_changes, texts, Changes};
use crate::message_info::MessageSummary;
use crate::summary::{delta_changes, delta_rows, listing_changes, listing_rows, Summary};

verus! {

/// What the server answered about one mailbox.
pub enum MessageUpdate {
    /// Nothing moved since the state asked from; the folder is right as of
    /// this newer state.
    Unchanged(String),
    /// What the mailbox now holds of the messages that moved, and the ids of
    /// the ones it no longer holds.
    Changed { state: String, present: Vec<MessageSummary>, absent: Vec<String> },
    /// The whole mailbox, when there was no state to ask from or the server
    /// would not calculate a delta from it.
    Relisted { state: String, messages: Vec<MessageSummary> },
}

/// The question a refresh asks of the server.
#[derive(Debug, PartialEq, Eq)]
pub enum Question {
    /// What changed since this state, for a folder holding this many rows —
    /// the count is what decides when a delta has grown past a listing.
    Since { state: String, held: usize },
    /// Everything the mailbox holds.
    List,
}

impl Question {
    /// The question as values.
    pub open spec fn view_question(self) -> Option<(Seq<char>, usize)> {
        match self {
            Question::Since { state, held } => Some((state@, held)),
            Question::List => None,
        }
    }
}

/// The question a folder holding `summary` is in a position to ask: what
/// changed since the state it remembers, or — remembering none — everything.
pub fn question(summary: &Summary) -> (q: Question)
    requires
        summary.wf(),
    ensures
        match summary.state() {
            Some(s) => q.view_question() == Some((s, summary.rows().len() as usize)),
            None => q == Question::List,
        },
{
    match summary.current_state() {
        Some(state) => Question::Since {
            state: state.clone(),
            held: summary.rows_held().len(),
        },
        None => Question::List,
    }
}

/// Brings a folder in line with the server's answer, then records the state
/// the answer was taken at. Reports what moved — the diff an open message
/// list is redrawn from — and whether the summary has to be written back.
pub fn apply_update(summary: &mut Summary, update: MessageUpdate) -> (r: (Changes, bool))
    requires
        old(summary).wf(),
    ensures
        final(summary).wf(),
        match update {
            MessageUpdate::Unchanged(state) => {
                &&& final(summary).rows() == old(summary).rows()
                &&& r.0@ == no_changes()
                &&& final(summary).state() == Some(state@)
                &&& r.1 == (old(summary).state() != Some(state@))
            },
            MessageUpdate::Changed { state, present, absent } => {
                &&& final(summary).rows() == delta_rows(
                    old(summary).rows(),
                    present@,
                    texts(absent@),
                )
                &&& r.0@ == delta_changes(old(summary).rows(), present@, texts(absent@))
                &&& final(summary).state() == Some(state@)
                &&& r.1 == (old(summary).state() != Some(state@))
            },
            MessageUpdate::Relisted { state, messages } => {
                &&& final(summary).rows() == listing_rows(old(summary).rows(), messages@)
                &&& r.0@ == listing_changes(old(summary).rows(), messages@)
                &&& final(summary).state() == Some(state@)
                &&& r.1 == (old(summary).state() != Some(state@))
            },
        },
{
    match update {
        MessageUpdate::Unchanged(state) => {
            let touched = summary.set_state(state);
            (Changes::new(), touched)
        },
        MessageUpdate::Changed { state, present, absent } => {
            let changes = summary.apply_delta(present.as_slice(), absent.as_slice());
            let touched = summary.set_state(state);
            (changes, touched)
        },
        MessageUpdate::Relisted { state, messages } => {
            let changes = summary.apply_listing(messages.as_slice());
            let touched = summary.set_state(state);
            (changes, touched)
        },
    }
}

} // verus!
