use jmap_mail::connect::StoreError;
use jmap_mail::server::ServerConfig;
use jmap_mail::subscribe::{announced, subscription_target};
use jmap_mail::folders::{
    count, flags, folder_rows, is_subscribed, nul_free_text, ticked, FolderFlags, FolderInfo,
    FolderRole, FolderTree, FolderType, GetFolderInfoFlags, Request,
};

fn folder(id: &str, path: &str, role: Option<FolderRole>, subscribed: bool, children: Vec<FolderInfo>) -> FolderInfo {
    FolderInfo {
        id: id.to_owned(),
        path: path.to_owned(),
        display_name: path.rsplit('/').next().unwrap().to_owned(),
        role,
        total: 3,
        unread: 1,
        subscribed,
        children,
    }
}

fn tree() -> FolderTree {
    FolderTree {
        roots: vec![
            folder("m1", "INBOX", Some(FolderRole::Inbox), true, vec![
                folder("m2", "INBOX/Lists", None, false, vec![
                    folder("m3", "INBOX/Lists/Rust", None, true, vec![]),
                ]),
                folder("m4", "INBOX/Old", None, false, vec![]),
            ]),
            folder("m5", "Trash", Some(FolderRole::Trash), false, vec![]),
        ],
    }
}

fn no_flags() -> GetFolderInfoFlags {
    GetFolderInfoFlags { recursive: false, subscribed: false, subscription_list: false, refresh: false }
}

#[test]
fn a_folder_is_found_by_its_path_at_any_depth() {
    let t = tree();
    assert_eq!(t.find(&"INBOX/Lists/Rust".to_owned()).map(|f| f.id), Some("m3".to_owned()));
    assert_eq!(t.find(&"Trash".to_owned()).map(|f| f.id), Some("m5".to_owned()));
    assert!(t.find(&"INBOX/Missing".to_owned()).is_none());
}

#[test]
fn subscription_is_read_from_the_listing_and_nothing_else() {
    let t = tree();
    assert!(is_subscribed(Some(&t), &"INBOX/Lists/Rust".to_owned()));
    assert!(!is_subscribed(Some(&t), &"INBOX/Old".to_owned()));
    assert!(!is_subscribed(Some(&t), &"Nowhere".to_owned()));
    assert!(!is_subscribed(None, &"INBOX".to_owned()));
}

#[test]
fn the_subscribed_part_keeps_the_parents_of_ticked_folders() {
    let kept = ticked(&tree().roots);
    assert_eq!(kept.len(), 1);
    assert_eq!(kept[0].path, "INBOX");
    assert_eq!(kept[0].children.len(), 1);
    assert_eq!(kept[0].children[0].path, "INBOX/Lists");
    assert_eq!(kept[0].children[0].children[0].path, "INBOX/Lists/Rust");
}

#[test]
fn a_non_recursive_call_from_the_root_answers_one_level() {
    let r = Request::new(&tree(), None, no_flags());
    assert_eq!(r.depth, Some(0));
    let rows = r.answer();
    assert_eq!(rows.len(), 2);
    assert!(rows[0].children.is_empty());
    assert!(rows[0].flags.has_children);
}

#[test]
fn a_call_naming_a_folder_answers_it_and_the_level_below() {
    let top = "INBOX".to_owned();
    let r = Request::new(&tree(), Some(&top), no_flags());
    assert_eq!(r.depth, Some(1));
    let rows = r.answer();
    assert_eq!(rows.len(), 1);
    assert_eq!(rows[0].full_name, "INBOX");
    assert_eq!(rows[0].children.len(), 2);
    assert!(rows[0].children[0].children.is_empty());
}

#[test]
fn a_call_naming_an_unknown_folder_answers_nothing() {
    let top = "Nowhere".to_owned();
    let r = Request::new(&tree(), Some(&top), GetFolderInfoFlags { recursive: true, ..no_flags() });
    assert!(r.answer().is_empty());
}

#[test]
fn the_subscription_editor_sees_every_folder() {
    let flags = GetFolderInfoFlags { recursive: true, subscribed: true, subscription_list: true, refresh: false };
    let r = Request::new(&tree(), None, flags);
    assert_eq!(r.roots.len(), 2);
    let only = GetFolderInfoFlags { subscription_list: false, ..flags };
    assert_eq!(Request::new(&tree(), None, only).roots.len(), 1);
}

#[test]
fn a_role_makes_a_system_folder_of_its_type() {
    let t = tree();
    assert_eq!(
        flags(&t.roots[0]),
        FolderFlags { folder_type: FolderType::Inbox, system: true, subscribed: true, has_children: true }
    );
    assert_eq!(
        flags(&t.roots[0].children[1]),
        FolderFlags { folder_type: FolderType::Normal, system: false, subscribed: false, has_children: false }
    );
}

#[test]
fn counts_saturate_rather_than_turn_negative() {
    assert_eq!(count(7), 7);
    assert_eq!(count(0x7fff_ffff), 0x7fff_ffff);
    assert_eq!(count(0x8000_0000), 0x7fff_ffff);
    assert_eq!(count(u32::MAX), 0x7fff_ffff);
}

#[test]
fn a_nul_in_a_name_becomes_a_replacement_character() {
    assert_eq!(nul_free_text(&"a\0b".to_owned()), "a\u{fffd}b");
    assert_eq!(nul_free_text(&"plain".to_owned()), "plain");
}

#[test]
fn rows_carry_counts_and_names() {
    let rows = folder_rows(&tree().roots, None);
    assert_eq!(rows[0].total, 3);
    assert_eq!(rows[0].unread, 1);
    assert_eq!(rows[0].display_name, "INBOX");
    assert_eq!(rows[0].children[0].children[0].full_name, "INBOX/Lists/Rust");
}

#[test]
fn a_subscription_written_is_a_subscription_read() {
    let mut t = tree();
    let path = "INBOX/Old".to_owned();
    let target = subscription_target(&t, &path).unwrap();
    assert_eq!(target.id, "m4");
    assert!(!is_subscribed(Some(&t), &path));
    t.set_subscribed(&target.id, true);
    assert!(is_subscribed(Some(&t), &path));
    assert!(is_subscribed(Some(&t), &"INBOX/Lists/Rust".to_owned()));
    let now = announced(&target, true);
    assert!(now.subscribed);
    assert_eq!(now.path, path);
    t.set_subscribed(&"m3".to_owned(), false);
    assert!(!is_subscribed(Some(&t), &"INBOX/Lists/Rust".to_owned()));
}

#[test]
fn a_subscription_of_an_unknown_path_names_the_path() {
    assert_eq!(
        subscription_target(&tree(), &"Gone".to_owned()),
        Err(StoreError::NoFolder("Gone".to_owned()))
    );
}

#[test]
fn an_empty_user_name_is_no_user_name() {
    let c = ServerConfig::new("https://jmap.example.org".to_owned(), Some(String::new()));
    assert_eq!(c.user, None);
    let c = ServerConfig::new("https://jmap.example.org".to_owned(), Some("me".to_owned()));
    assert_eq!(c.user.as_deref(), Some("me"));
    assert_eq!(c.origin, "https://jmap.example.org");
}

#[test]
fn a_deleted_folder_leaves_the_listing_with_everything_under_it() {
    let mut t = tree();
    t.remove_mailbox(&"m2".to_owned());
    assert!(t.find(&"INBOX/Lists".to_owned()).is_none());
    assert!(t.find(&"INBOX/Lists/Rust".to_owned()).is_none());
    assert!(t.find(&"INBOX/Old".to_owned()).is_some());
    assert_eq!(t.roots.len(), 2);
}

#[test]
fn a_created_folder_is_listed_under_its_parent_or_at_the_top() {
    let mut t = tree();
    let made = folder("m9", "INBOX/Old/New", None, false, vec![]);
    t.insert(Some(&"m4".to_owned()), &made);
    assert_eq!(t.find(&"INBOX/Old/New".to_owned()).map(|f| f.id), Some("m9".to_owned()));
    let top = folder("m10", "Top", None, true, vec![]);
    t.insert(None, &top);
    assert_eq!(t.roots.len(), 3);
    assert_eq!(t.roots[2].path, "Top");
}

#[test]
fn the_subscribed_part_of_a_deep_chain_is_walked_whole() {
    let depth = 3000;
    let mut node = folder("leaf", "leaf", None, true, vec![]);
    for i in 0..depth {
        let stray = folder(&format!("s{i}"), "stray", None, false, vec![]);
        node = folder(&format!("d{i}"), "d", None, false, vec![node, stray]);
    }
    let kept = ticked(&vec![node]);
    let mut levels = 0;
    let mut at = &kept;
    while let Some(f) = at.first() {
        assert_eq!(at.len(), 1, "an unticked leaf is not kept");
        levels += 1;
        at = &f.children;
    }
    assert_eq!(levels, depth + 1);
}
