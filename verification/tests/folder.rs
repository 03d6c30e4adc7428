use jmap_mail::append::{import_keywords, received_at};
use jmap_mail::connect::{oauth2_failure, StoreError};
use jmap_mail::folder::{open_flags, server_answer, OpenFolderFlags};
use jmap_mail::folders::{
    folder_at, folder_for_role, folder_question, parent_path, renamed, FolderInfo, FolderQuestion,
    FolderRole, FolderTree, FolderUpdate, Listing,
};
use jmap_mail::message::{parse_length, requested_uid};
use jmap_mail::message_info::{thread_order, Keywords, MessageFlags, MessageRow, SEEN};
use jmap_mail::settings::{property, Property};

fn folder(id: &str, path: &str, role: Option<FolderRole>, children: Vec<FolderInfo>) -> FolderInfo {
    FolderInfo {
        id: id.to_owned(),
        path: path.to_owned(),
        display_name: path.to_owned(),
        role,
        total: 0,
        unread: 0,
        subscribed: true,
        children,
    }
}

fn tree() -> FolderTree {
    FolderTree {
        roots: vec![
            folder("m1", "Mail", None, vec![folder("m2", "Mail/In", Some(FolderRole::Inbox), vec![])]),
            folder("m3", "Bin", Some(FolderRole::Trash), vec![]),
        ],
    }
}

fn none() -> MessageFlags {
    MessageFlags {
        seen: false,
        answered: false,
        flagged: false,
        draft: false,
        forwarded: false,
        junk: false,
        not_junk: false,
        attachments: false,
    }
}

fn strings(v: &[&str]) -> Vec<String> {
    v.iter().map(|s| (*s).to_owned()).collect()
}

#[test]
fn only_the_inbox_runs_the_incoming_rules() {
    let t = tree();
    assert_eq!(
        open_flags(&t.roots[0].children[0]),
        OpenFolderFlags { has_summary_capability: true, filter_recent: true, filter_junk: true }
    );
    assert_eq!(
        open_flags(&t.roots[1]),
        OpenFolderFlags { has_summary_capability: true, filter_recent: false, filter_junk: false }
    );
}

#[test]
fn a_folder_is_found_by_role_at_any_depth() {
    let t = tree();
    assert_eq!(folder_for_role(&t, FolderRole::Inbox).map(|f| f.id), Ok("m2".to_owned()));
    assert_eq!(folder_for_role(&t, FolderRole::Trash).map(|f| f.id), Ok("m3".to_owned()));
    assert_eq!(folder_for_role(&t, FolderRole::Junk), Err(StoreError::NoRole(FolderRole::Junk)));
    assert_eq!(folder_at(&t, &"Mail/In".to_owned()).map(|f| f.id), Ok("m2".to_owned()));
    assert_eq!(folder_at(&t, &"Mail/Out".to_owned()), Err(StoreError::NoFolder("Mail/Out".to_owned())));
}

#[test]
fn a_disconnected_search_falls_back_to_a_local_one() {
    assert_eq!(server_answer(Err(StoreError::Disconnected), None), None);
    assert_eq!(
        server_answer(Err(StoreError::NoFolder("x".to_owned())), None),
        Some(Err(StoreError::NoFolder("x".to_owned())))
    );
}

#[test]
fn a_server_search_is_kept_to_the_messages_asked_about() {
    let ids = strings(&["M3", "M1", "M2"]);
    assert_eq!(server_answer(Ok(ids.clone()), None), Some(Ok(ids.clone())));
    let restrict = strings(&["M2", "M3"]);
    assert_eq!(server_answer(Ok(ids), Some(&restrict)), Some(Ok(strings(&["M3", "M2"]))));
}

#[test]
fn a_new_folder_goes_at_the_top_for_no_parent_or_the_root() {
    assert_eq!(parent_path(None), None);
    assert_eq!(parent_path(Some("")), None);
    assert_eq!(parent_path(Some("Mail")), Some("Mail".to_owned()));
}

#[test]
fn a_renamed_folder_keeps_its_mailbox_and_loses_its_children() {
    let t = tree();
    let r = renamed(&t.roots[0], &"Post".to_owned(), "Post");
    assert_eq!(r.id, "m1");
    assert_eq!(r.path, "Post");
    assert_eq!(r.display_name, "Post");
    assert!(r.children.is_empty());
}

#[test]
fn the_folder_list_is_asked_for_only_when_needed() {
    let s = "s7".to_owned();
    assert_eq!(folder_question(Some(&s), false), FolderQuestion::Held);
    assert_eq!(folder_question(Some(&s), true), FolderQuestion::Since("s7".to_owned()));
    assert_eq!(folder_question(None, false), FolderQuestion::List);
    assert_eq!(folder_question(None, true), FolderQuestion::List);
}

#[test]
fn an_unrecorded_arrival_is_left_to_the_server() {
    assert_eq!(received_at(0), None);
    assert_eq!(received_at(1_700_000_000), Some(1_700_000_000));
}

#[test]
fn an_import_carries_the_rows_keywords_or_none() {
    let row = MessageRow {
        uid: "M1".to_owned(),
        flags: SEEN,
        labels: strings(&["work"]),
        server: Keywords { flags: none(), tags: vec![] },
    };
    let k = import_keywords(Some(&row));
    assert_eq!(k.flags, MessageFlags { seen: true, ..none() });
    assert_eq!(k.tags, strings(&["work"]));
    let k = import_keywords(None);
    assert_eq!(k.flags, none());
    assert!(k.tags.is_empty());
}

#[test]
fn a_message_is_asked_for_by_a_uid() {
    assert_eq!(requested_uid(Some("M1".to_owned())), Ok("M1".to_owned()));
    assert_eq!(requested_uid(Some(String::new())), Err(StoreError::NoMessage(String::new())));
    assert_eq!(requested_uid(None), Err(StoreError::NoMessage(String::new())));
}

#[test]
fn a_parse_length_never_turns_negative() {
    assert_eq!(parse_length(12), 12);
    assert_eq!(parse_length(usize::MAX), isize::MAX);
}

#[test]
fn ancestors_are_walked_nearest_first() {
    assert_eq!(thread_order(&strings(&["root", "mid", "parent"])), strings(&["parent", "mid", "root"]));
    assert!(thread_order(&vec![]).is_empty());
}

#[test]
fn a_token_failure_keeps_the_sessions_sentence() {
    assert_eq!(oauth2_failure(Some("consent needed".to_owned())), StoreError::OAuth2("consent needed".to_owned()));
    assert_eq!(
        oauth2_failure(None),
        StoreError::OAuth2("no OAuth 2.0 access token could be obtained".to_owned())
    );
}

#[test]
fn every_property_is_found_by_its_id() {
    for p in Property::all() {
        assert_eq!(property(p.id()), Some(p));
    }
    assert_eq!(property(0), None);
    assert_eq!(property(6), None);
    assert_eq!(Property::Host.name(), "host");
    assert_eq!(Property::SecurityMethod.name(), "security-method");
}

#[test]
fn an_unchanged_folder_list_keeps_its_tree_at_the_newer_state() {
    let held = Listing { state: "s1".to_owned(), tree: tree() };
    let now = held.apply(FolderUpdate::Unchanged("s2".to_owned()));
    assert_eq!(now.state, "s2");
    assert_eq!(now.tree, tree());
    let rebuilt = now.apply(FolderUpdate::Rebuilt { state: "s3".to_owned(), tree: FolderTree { roots: vec![] } });
    assert_eq!(rebuilt.state, "s3");
    assert!(rebuilt.tree.roots.is_empty());
}
