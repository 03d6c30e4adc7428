use jmap_mail::changes::Changes;
use jmap_mail::connect::StoreError;
use jmap_mail::expunge::{deleted_rows, finish_expunge};
use jmap_mail::message_info::{
    new_row, MessageFlags, MessageSummary, DELETED, FOLDER_FLAGGED, SEEN,
};
use jmap_mail::summary::Summary;
use jmap_mail::synchronize::{row_keywords, KeywordChange, Walk, Write};
use jmap_mail::transfer::{plan_transfer, Filing, Transfer};

fn none() -> MessageFlags {
    MessageFlags {
        seen: false,
        answered: false,
        flagged: false,
        draft: false,
        forwarded: false,
        junk: false,
        not_junk: false,
        attachments: false,
    }
}

fn message(uid: &str) -> MessageSummary {
    MessageSummary {
        uid: uid.to_owned(),
        subject: None,
        from: vec![],
        to: vec![],
        cc: vec![],
        preview: None,
        size: 10,
        received_at: None,
        sent_at: None,
        message_id: None,
        references: vec![],
        flags: none(),
        tags: vec!["work".to_owned()],
    }
}

fn listed(uids: &[&str]) -> Summary {
    let mut s = Summary::new();
    let messages: Vec<MessageSummary> = uids.iter().map(|u| message(u)).collect();
    s.apply_listing(&messages);
    s
}

fn uid(text: &str) -> String {
    text.to_owned()
}

#[test]
fn an_unchanged_row_is_settled_without_a_request() {
    let mut s = listed(&["M1"]);
    assert_eq!(s.prepare_write(&uid("M1")), Write::Settled);
    assert_eq!(s.prepare_write(&uid("M9")), Write::Nothing);
}

#[test]
fn a_read_message_sends_exactly_the_seen_keyword() {
    let mut row = new_row(&message("M1"));
    row.flags |= SEEN | FOLDER_FLAGGED;
    let mut s2 = Summary::new();
    assert!(s2.insert_row(row));
    match s2.prepare_write(&uid("M1")) {
        Write::Send(change) => {
            assert_eq!(change.set.flags, MessageFlags { seen: true, ..none() });
            assert_eq!(change.unset.flags, none());
            assert!(change.set.tags.is_empty());
            assert!(change.unset.tags.is_empty());
        }
        other => panic!("expected a change to send, got {other:?}"),
    }
    assert_eq!(s2.finish_write(&uid("M1"), Ok(())), Ok(()));
    assert_eq!(s2.rows_held()[0].flags, SEEN);
    assert_eq!(s2.rows_held()[0].server.flags, MessageFlags { seen: true, ..none() });
    assert_eq!(s2.prepare_write(&uid("M1")), Write::Settled);
}

#[test]
fn a_gone_message_is_not_a_failure_and_a_refusal_stays_queued() {
    let mut row = new_row(&message("M1"));
    row.flags |= SEEN | FOLDER_FLAGGED;
    let mut s = Summary::new();
    assert!(s.insert_row(row));
    let refused = StoreError::Client {
        failure: jmap_mail::connect::ClientFailure::Other,
        message: "forbidden".to_owned(),
    };
    assert_eq!(s.finish_write(&uid("M1"), Err(refused.clone_error())), Err(refused));
    assert_eq!(s.rows_held()[0].flags, SEEN | FOLDER_FLAGGED);
    assert_eq!(s.finish_write(&uid("M1"), Err(StoreError::NoMessage(uid("M1")))), Ok(()));
    assert_eq!(s.rows_held()[0].flags, SEEN);
}

trait CloneError {
    fn clone_error(&self) -> StoreError;
}

impl CloneError for StoreError {
    fn clone_error(&self) -> StoreError {
        match self {
            StoreError::Client { failure, message } => StoreError::Client { failure: *failure, message: message.clone() },
            _ => StoreError::Disconnected,
        }
    }
}

#[test]
fn a_change_is_the_difference_both_ways() {
    let row = new_row(&message("M1"));
    let before = row_keywords(&row);
    let mut after = row_keywords(&row);
    after.flags.flagged = true;
    after.tags = vec!["later".to_owned()];
    let change = KeywordChange::between(&before, &after);
    assert_eq!(change.set.flags, MessageFlags { flagged: true, ..none() });
    assert_eq!(change.set.tags, vec!["later".to_owned()]);
    assert_eq!(change.unset.tags, vec!["work".to_owned()]);
    assert!(!change.is_empty());
    assert!(KeywordChange::between(&before, &before).is_empty());
}

#[test]
fn a_walk_reports_its_first_failure() {
    let mut walk = Walk::new();
    walk.record(Ok(()));
    walk.record(Err(StoreError::Disconnected));
    walk.record(Err(StoreError::NoOutgoingFolder));
    assert_eq!(walk.finish(), Err(StoreError::Disconnected));
    assert_eq!(Walk::new().finish(), Ok(()));
}

#[test]
fn an_expunge_walks_the_deleted_rows_only() {
    let mut row = new_row(&message("M2"));
    row.flags |= DELETED;
    let mut s = listed(&["M1"]);
    assert!(s.insert_row(row));
    assert_eq!(deleted_rows(&s), vec!["M2"]);
    let mut changes = Changes::new();
    assert_eq!(finish_expunge(&mut s, &mut changes, &uid("M2"), Ok(())), Ok(()));
    assert_eq!(s.rows_held().len(), 1);
    assert_eq!(changes.removed(), vec!["M2"]);
}

#[test]
fn an_expunge_of_a_gone_message_still_takes_the_row() {
    let mut s = listed(&["M1"]);
    let mut changes = Changes::new();
    assert_eq!(finish_expunge(&mut s, &mut changes, &uid("M1"), Err(StoreError::NoMessage(uid("M1")))), Ok(()));
    assert!(s.rows_held().is_empty());
    let mut s = listed(&["M1"]);
    let mut changes = Changes::new();
    assert_eq!(finish_expunge(&mut s, &mut changes, &uid("M1"), Err(StoreError::Disconnected)), Err(StoreError::Disconnected));
    assert_eq!(s.rows_held().len(), 1);
    assert!(changes.is_empty());
}

#[test]
fn a_transfer_is_planned_by_mailbox() {
    let inbox = uid("mb-inbox");
    let lists = uid("mb-lists");
    assert_eq!(
        plan_transfer(Some(&inbox), Some(&lists), "INBOX", "Lists", true),
        Ok(Some(Filing::Moved { from: inbox.clone(), into: lists.clone() }))
    );
    assert_eq!(
        plan_transfer(Some(&inbox), Some(&lists), "INBOX", "Lists", false),
        Ok(Some(Filing::Copied { into: lists.clone() }))
    );
    assert_eq!(plan_transfer(Some(&inbox), Some(&inbox), "INBOX", "INBOX2", true), Ok(None));
    assert_eq!(plan_transfer(Some(&inbox), None, "INBOX", "Other", true), Err(StoreError::NoFolder(uid("Other"))));
    assert_eq!(plan_transfer(None, Some(&lists), "INBOX", "Lists", true), Err(StoreError::NoFolder(uid("INBOX"))));
}

#[test]
fn a_move_takes_the_landed_rows_and_reports_the_first_failure() {
    let mut s = listed(&["M1", "M2", "M3"]);
    let mut t = Transfer::new(true, 3);
    t.record(&mut s, 0, &uid("M1"), Ok(()));
    t.record(&mut s, 1, &uid("M2"), Err(StoreError::Disconnected));
    t.record(&mut s, 2, &uid("M3"), Err(StoreError::NoMessage(uid("M3"))));
    let (transferred, changes, result) = t.finish();
    assert_eq!(transferred, vec![Some(uid("M1")), None, None]);
    assert_eq!(changes.removed(), vec!["M1", "M3"]);
    assert_eq!(result, Err(StoreError::Disconnected));
    assert_eq!(s.rows_held().len(), 1);
    assert_eq!(s.rows_held()[0].uid, "M2");
}

#[test]
fn a_copy_leaves_the_rows_where_they_are() {
    let mut s = listed(&["M1"]);
    let mut t = Transfer::new(false, 1);
    t.record(&mut s, 0, &uid("M1"), Ok(()));
    let (transferred, changes, result) = t.finish();
    assert_eq!(transferred, vec![Some(uid("M1"))]);
    assert!(changes.is_empty());
    assert_eq!(result, Ok(()));
    assert_eq!(s.rows_held().len(), 1);
}
