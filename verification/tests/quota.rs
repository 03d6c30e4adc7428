use jmap_mail::connect::StoreError;
use jmap_mail::quota::{applies_to_mail, chain, quota_info, Quota, QuotaRow, MAIL};

fn octets(name: &str, data_types: &[&str]) -> Quota {
    Quota::new(
        "Q1",
        name,
        "octets",
        0,
        1_073_741_824,
        "account",
        data_types.iter().map(|t| (*t).to_owned()).collect(),
    )
}

#[test]
fn a_quota_naming_mail_applies() {
    assert!(applies_to_mail(&octets("Storage", &[MAIL])));
}

#[test]
fn a_quota_with_no_data_types_applies_to_everything_including_mail() {
    assert!(applies_to_mail(&octets("Storage", &[])));
}

#[test]
fn a_quota_scoped_to_other_data_types_does_not_apply() {
    assert!(!applies_to_mail(&octets("Storage", &["ContactCard", "Calendar"])));
}

#[test]
fn an_empty_list_chains_to_nothing() {
    assert!(chain(&[]).is_none());
}

#[test]
fn a_chain_has_one_row_per_quota_in_order() {
    let quotas = vec![octets("A", &[MAIL]), octets("B", &["Calendar"])];
    assert_eq!(
        chain(&quotas),
        Some(vec![
            QuotaRow { name: "A".to_owned(), used: 0, total: 1_073_741_824 },
            QuotaRow { name: "B".to_owned(), used: 0, total: 1_073_741_824 },
        ])
    );
}

#[test]
fn only_the_quotas_that_count_mail_are_reported() {
    let mut used = octets("Mail storage", &[MAIL, "Calendar"]);
    used.used = 512;
    let quotas = vec![octets("Calendars", &["Calendar"]), used, octets("All", &[])];
    assert_eq!(
        quota_info(&quotas),
        Ok(vec![
            QuotaRow { name: "Mail storage".to_owned(), used: 512, total: 1_073_741_824 },
            QuotaRow { name: "All".to_owned(), used: 0, total: 1_073_741_824 },
        ])
    );
}

#[test]
fn an_account_with_no_mail_quota_reports_that_there_is_none() {
    let quotas = vec![octets("Calendars", &["Calendar"])];
    assert_eq!(quota_info(&quotas), Err(StoreError::NoQuota));
    assert_eq!(quota_info(&[]), Err(StoreError::NoQuota));
}
