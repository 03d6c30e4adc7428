use jmap_mail::message_info::{
    flags_word, new_row, refresh_row, same_texts, word_flags, MessageFlags, MessageRow,
    MessageSummary, ANSWERED, ATTACHMENTS, DELETED, DRAFT, FLAGGED, FLAGS_FROM_JMAP,
    FOLDER_FLAGGED, FORWARDED, JUNK, NOTJUNK, SEEN,
};

fn none() -> MessageFlags {
    MessageFlags {
        seen: false,
        answered: false,
        flagged: false,
        draft: false,
        forwarded: false,
        junk: false,
        not_junk: false,
        attachments: false,
    }
}

fn message(uid: &str, flags: MessageFlags, tags: &[&str]) -> MessageSummary {
    MessageSummary {
        uid: uid.to_owned(),
        subject: Some("hello".to_owned()),
        from: vec![],
        to: vec![],
        cc: vec![],
        preview: None,
        size: 1200,
        received_at: Some(1_700_000_000),
        sent_at: None,
        message_id: None,
        references: vec![],
        flags,
        tags: tags.iter().map(|t| (*t).to_owned()).collect(),
    }
}

#[test]
fn each_keyword_is_its_own_bit() {
    assert_eq!(flags_word(&MessageFlags { seen: true, ..none() }), SEEN);
    assert_eq!(flags_word(&MessageFlags { answered: true, ..none() }), ANSWERED);
    assert_eq!(flags_word(&MessageFlags { flagged: true, ..none() }), FLAGGED);
    assert_eq!(flags_word(&MessageFlags { draft: true, ..none() }), DRAFT);
    assert_eq!(flags_word(&MessageFlags { forwarded: true, ..none() }), FORWARDED);
    assert_eq!(flags_word(&MessageFlags { junk: true, ..none() }), JUNK);
    assert_eq!(flags_word(&MessageFlags { not_junk: true, ..none() }), NOTJUNK);
    assert_eq!(flags_word(&MessageFlags { attachments: true, ..none() }), ATTACHMENTS);
    assert_eq!(flags_word(&none()), 0);
    assert_eq!(SEEN | ANSWERED | FLAGGED | DRAFT | FORWARDED | JUNK | NOTJUNK | ATTACHMENTS, FLAGS_FROM_JMAP);
}

#[test]
fn a_word_reads_back_as_its_keywords() {
    let f = MessageFlags { seen: true, flagged: true, junk: true, ..none() };
    assert_eq!(word_flags(flags_word(&f)), f);
    assert_eq!(word_flags(SEEN | DELETED | FOLDER_FLAGGED), MessageFlags { seen: true, ..none() });
}

#[test]
fn a_new_row_is_the_listing() {
    let m = message("M1", MessageFlags { seen: true, ..none() }, &["$label1"]);
    let row = new_row(&m);
    assert_eq!(row.uid, "M1");
    assert_eq!(row.flags, SEEN);
    assert_eq!(row.labels, vec!["$label1".to_owned()]);
    assert_eq!(row.server.flags, m.flags);
}

#[test]
fn a_refresh_keeps_the_users_deleted_mark() {
    let m = message("M1", MessageFlags { seen: true, ..none() }, &[]);
    let mut row = new_row(&m);
    row.flags |= DELETED;
    let later = message("M1", MessageFlags { seen: true, flagged: true, ..none() }, &[]);
    assert!(refresh_row(&mut row, &later));
    assert_eq!(row.flags, SEEN | FLAGGED | DELETED);
}

#[test]
fn a_refresh_that_finds_nothing_new_moves_nothing() {
    let m = message("M1", MessageFlags { seen: true, ..none() }, &["a", "b"]);
    let mut row = new_row(&m);
    let again = message("M1", MessageFlags { seen: true, ..none() }, &["b", "a"]);
    assert!(!refresh_row(&mut row, &again));
    assert_eq!(row.flags, SEEN);
}

#[test]
fn a_refresh_is_replayed_around_a_change_not_yet_written() {
    // The server had the message unread; the user read it, and the write has
    // not happened yet. A listing that meanwhile flags it keeps the read.
    let m = message("M1", none(), &["work"]);
    let mut row: MessageRow = new_row(&m);
    row.flags |= SEEN | FOLDER_FLAGGED;
    row.labels = vec![];
    let later = message("M1", MessageFlags { flagged: true, ..none() }, &["work", "later"]);
    assert!(refresh_row(&mut row, &later));
    assert_eq!(row.flags, SEEN | FLAGGED | FOLDER_FLAGGED);
    // The label the user took off stays off; the one the server added arrives.
    assert!(same_texts(&row.labels, &vec!["later".to_owned()]));
    assert_eq!(row.server.flags, later.flags);
}

#[test]
fn a_refresh_without_a_pending_change_takes_the_servers_word() {
    let m = message("M1", MessageFlags { seen: true, ..none() }, &["a"]);
    let mut row = new_row(&m);
    let later = message("M1", none(), &[]);
    assert!(refresh_row(&mut row, &later));
    assert_eq!(row.flags, 0);
    assert!(row.labels.is_empty());
}

#[test]
fn label_sets_compare_as_sets() {
    let a = vec!["x".to_owned(), "y".to_owned(), "x".to_owned()];
    let b = vec!["y".to_owned(), "x".to_owned()];
    assert!(same_texts(&a, &b));
    assert!(!same_texts(&a, &vec!["x".to_owned()]));
}
