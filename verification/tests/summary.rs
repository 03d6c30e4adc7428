use jmap_mail::message_info::{new_row, MessageFlags, MessageSummary, DELETED, SEEN};
use jmap_mail::refresh::{apply_update, question, MessageUpdate, Question};
use jmap_mail::summary::{Summary, HEADER_VERSION};

fn none() -> MessageFlags {
    MessageFlags {
        seen: false,
        answered: false,
        flagged: false,
        draft: false,
        forwarded: false,
        junk: false,
        not_junk: false,
        attachments: false,
    }
}

fn message(uid: &str, seen: bool) -> MessageSummary {
    MessageSummary {
        uid: uid.to_owned(),
        subject: None,
        from: vec![],
        to: vec![],
        cc: vec![],
        preview: None,
        size: 10,
        received_at: None,
        sent_at: None,
        message_id: None,
        references: vec![],
        flags: MessageFlags { seen, ..none() },
        tags: vec![],
    }
}

fn uids(summary: &Summary) -> Vec<String> {
    summary.rows_held().iter().map(|r| r.uid.clone()).collect()
}

#[test]
fn a_first_listing_adds_every_message_and_nothing_is_recent() {
    let mut s = Summary::new();
    let changes = s.apply_listing(&[message("M1", false), message("M2", true)]);
    assert_eq!(uids(&s), vec!["M1", "M2"]);
    assert_eq!(changes.added(), vec!["M1", "M2"]);
    assert!(changes.removed().is_empty());
    assert!(changes.changed().is_empty());
    assert!(changes.recent().is_empty());
}

#[test]
fn a_listing_drops_what_it_no_longer_names_and_updates_what_moved() {
    let mut s = Summary::new();
    s.apply_listing(&[message("M1", false), message("M2", false), message("M3", false)]);
    let changes = s.apply_listing(&[message("M3", false), message("M1", true), message("M4", false)]);
    assert_eq!(uids(&s), vec!["M1", "M3", "M4"]);
    assert_eq!(changes.removed(), vec!["M2"]);
    assert_eq!(changes.changed(), vec!["M1"]);
    assert_eq!(changes.added(), vec!["M4"]);
    assert_eq!(s.rows_held()[0].flags, SEEN);
}

#[test]
fn listing_the_same_mailbox_again_reports_nothing() {
    let mut s = Summary::new();
    let listing = [message("M1", true), message("M2", false)];
    s.apply_listing(&listing);
    let changes = s.apply_listing(&listing);
    assert!(changes.is_empty());
    assert_eq!(uids(&s), vec!["M1", "M2"]);
}

#[test]
fn a_delta_leaves_the_rows_it_does_not_name_and_reports_arrivals_as_recent() {
    let mut s = Summary::new();
    s.apply_listing(&[message("M1", false), message("M2", false), message("M3", false)]);
    let changes = s.apply_delta(&[message("M2", true), message("M9", false)], &["M3".to_owned()]);
    assert_eq!(uids(&s), vec!["M1", "M2", "M9"]);
    assert_eq!(changes.removed(), vec!["M3"]);
    assert_eq!(changes.changed(), vec!["M2"]);
    assert_eq!(changes.added(), vec!["M9"]);
    assert_eq!(changes.recent(), vec!["M9"]);
}

#[test]
fn a_listing_keeps_a_local_deleted_mark() {
    let mut s = Summary::new();
    let mut row = new_row(&message("M1", false));
    row.flags |= DELETED;
    assert!(s.insert_row(row));
    s.apply_listing(&[message("M1", true)]);
    assert_eq!(s.rows_held()[0].flags, SEEN | DELETED);
}

#[test]
fn a_row_is_not_taken_in_twice() {
    let mut s = Summary::new();
    assert!(s.insert_row(new_row(&message("M1", false))));
    assert!(!s.insert_row(new_row(&message("M1", true))));
    assert_eq!(s.rows_held().len(), 1);
    assert!(s.remove_uid(&"M1".to_owned()));
    assert!(!s.remove_uid(&"M1".to_owned()));
}

#[test]
fn a_folder_with_no_state_lists_and_one_with_a_state_asks_since_it() {
    let mut s = Summary::new();
    assert_eq!(question(&s), Question::List);
    let (changes, touched) = apply_update(
        &mut s,
        MessageUpdate::Relisted { state: "s1".to_owned(), messages: vec![message("M1", false)] },
    );
    assert_eq!(changes.added(), vec!["M1"]);
    assert!(touched);
    assert_eq!(question(&s), Question::Since { state: "s1".to_owned(), held: 1 });
}

#[test]
fn an_unchanged_mailbox_rewrites_nothing_and_only_a_new_state_is_saved() {
    let mut s = Summary::new();
    apply_update(&mut s, MessageUpdate::Relisted { state: "s1".to_owned(), messages: vec![message("M1", false)] });
    let (changes, touched) = apply_update(&mut s, MessageUpdate::Unchanged("s1".to_owned()));
    assert!(changes.is_empty());
    assert!(!touched);
    let (_, touched) = apply_update(&mut s, MessageUpdate::Unchanged("s2".to_owned()));
    assert!(touched);
    assert_eq!(s.current_state(), Some(&"s2".to_owned()));
}

#[test]
fn a_changed_update_is_applied_as_a_delta() {
    let mut s = Summary::new();
    apply_update(&mut s, MessageUpdate::Relisted { state: "s1".to_owned(), messages: vec![message("M1", false), message("M2", false)] });
    let (changes, _) = apply_update(
        &mut s,
        MessageUpdate::Changed { state: "s2".to_owned(), present: vec![message("M3", false)], absent: vec!["M1".to_owned()] },
    );
    assert_eq!(uids(&s), vec!["M2", "M3"]);
    assert_eq!(changes.recent(), vec!["M3"]);
    assert_eq!(changes.removed(), vec!["M1"]);
}

#[test]
fn a_header_stores_the_state_and_only_this_format_is_read_back() {
    let mut s = Summary::new();
    assert_eq!(s.header_record(), None);
    apply_update(&mut s, MessageUpdate::Unchanged("s1".to_owned()));
    assert_eq!(s.header_record(), Some((HEADER_VERSION, "s1".to_owned())));
    let mut fresh = Summary::new();
    assert!(!fresh.restore_header(HEADER_VERSION + 1, Some("s9".to_owned())));
    assert_eq!(fresh.current_state(), None);
    assert!(!fresh.restore_header(HEADER_VERSION, None));
    assert!(fresh.restore_header(HEADER_VERSION, Some("s1".to_owned())));
    assert_eq!(fresh.current_state(), Some(&"s1".to_owned()));
}
