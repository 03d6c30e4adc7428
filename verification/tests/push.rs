use jmap_mail::push::{actions_for, work_for, Actions, Runs, Start, Work};

fn strings(names: &[&str]) -> Vec<String> {
    names.iter().map(|name| (*name).to_owned()).collect()
}

#[test]
fn a_mailbox_change_marks_the_folder_list_stale_only() {
    assert_eq!(
        actions_for(&strings(&["Mailbox"])),
        Actions {
            mark_folder_list_stale: true,
            request_message_refresh: false,
        }
    );
}

#[test]
fn a_message_change_requests_a_refresh_only() {
    for kind in ["Email", "EmailDelivery"] {
        assert_eq!(
            actions_for(&strings(&[kind])),
            Actions {
                mark_folder_list_stale: false,
                request_message_refresh: true,
            },
            "{kind} must request a message refresh and nothing else"
        );
    }
}

#[test]
fn a_push_naming_both_kinds_asks_for_both_actions() {
    assert_eq!(
        actions_for(&strings(&["Mailbox", "Email"])),
        Actions {
            mark_folder_list_stale: true,
            request_message_refresh: true,
        }
    );
}

#[test]
fn an_unwatched_type_asks_for_nothing() {
    assert_eq!(
        actions_for(&strings(&["ContactCard"])),
        Actions {
            mark_folder_list_stale: false,
            request_message_refresh: false,
        }
    );
}

#[test]
fn no_work_runs_no_pass() {
    let mut runs = Runs::new();
    assert_eq!(runs.request(Work::default()), Start::Nothing);
    assert_eq!(runs.request(work_for(&strings(&["ContactCard"]))), Start::Nothing);
}

#[test]
fn pushes_during_a_pass_owe_exactly_one_more() {
    let refresh = Work { refresh_messages: true, check_folder_list: false };
    let mut runs = Runs::new();
    assert_eq!(runs.request(refresh), Start::Run(refresh), "the first request runs a pass");
    for _ in 0..3 {
        assert_eq!(
            runs.request(refresh),
            Start::Coalesced,
            "no request during a pass may start a second one"
        );
    }
    assert_eq!(runs.pass_done(), Some(refresh), "the three coalesce into one further pass");
    assert_eq!(runs.pass_done(), None, "the worker must stop once nothing more is owed");
    assert_eq!(runs.request(refresh), Start::Run(refresh), "and a later push runs again");
}

#[test]
fn work_asked_during_a_pass_unions_into_the_next() {
    let refresh = Work { refresh_messages: true, check_folder_list: false };
    let folders = Work { refresh_messages: false, check_folder_list: true };
    let mut runs = Runs::new();
    assert_eq!(runs.request(refresh), Start::Run(refresh));
    assert_eq!(runs.request(folders), Start::Coalesced);
    assert_eq!(runs.request(refresh), Start::Coalesced);
    assert_eq!(
        runs.pass_done(),
        Some(Work { refresh_messages: true, check_folder_list: true }),
        "the coalesced pass must do both kinds of work, not just one"
    );
}

#[test]
fn non_overlapping_requests_each_run() {
    let refresh = Work { refresh_messages: true, check_folder_list: false };
    let mut runs = Runs::new();
    assert_eq!(runs.request(refresh), Start::Run(refresh));
    assert_eq!(runs.pass_done(), None);
    assert_eq!(runs.request(refresh), Start::Run(refresh));
    assert_eq!(runs.pass_done(), None);
}

#[test]
fn a_cleared_worker_starts_afresh() {
    let refresh = Work { refresh_messages: true, check_folder_list: false };
    let mut runs = Runs::new();
    assert_eq!(runs.request(refresh), Start::Run(refresh));
    assert_eq!(runs.request(refresh), Start::Coalesced);
    runs.clear();
    assert_eq!(runs.request(refresh), Start::Run(refresh));
}

#[test]
fn union_of_work_is_either_kind() {
    let refresh = Work { refresh_messages: true, check_folder_list: false };
    let folders = Work { refresh_messages: false, check_folder_list: true };
    assert_eq!(refresh.union(folders), Work { refresh_messages: true, check_folder_list: true });
    assert!(Work::default().is_empty());
    assert!(!refresh.is_empty());
    assert_eq!(
        work_for(&strings(&["Mailbox", "EmailDelivery"])),
        Work { refresh_messages: true, check_folder_list: true }
    );
}
