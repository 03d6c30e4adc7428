use jmap_mail::cache::{
    claimed, expire_after, loaded_damage, read_step, store_refusal, stored_completely, valid_key,
    Damage, ReadStep, Refusal, UNUSED_FOR_SECS,
};

#[test]
fn a_zero_size_is_no_claim() {
    assert_eq!(claimed(Some(0)), None);
    assert_eq!(claimed(None), None);
    assert_eq!(claimed(Some(12)), Some(12));
}

#[test]
fn only_jmap_ids_are_file_names() {
    assert!(valid_key("M1a_b-c"));
    assert!(!valid_key(""));
    assert!(!valid_key("-leading"));
    assert!(!valid_key(".."));
    assert!(!valid_key("a/b"));
    assert!(!valid_key("é"));
    assert!(valid_key(&"a".repeat(255)));
    assert!(!valid_key(&"a".repeat(256)));
}

#[test]
fn a_damaged_entry_is_named_for_its_damage() {
    assert_eq!(loaded_damage(0, Some(10)), Some(Damage::Empty));
    assert_eq!(loaded_damage(5, Some(10)), Some(Damage::Short { len: 5, listed: 10 }));
    assert_eq!(loaded_damage(10, Some(10)), None);
    assert_eq!(loaded_damage(5, Some(0)), None);
    assert_eq!(loaded_damage(5, None), None);
}

#[test]
fn a_message_that_would_not_be_served_is_not_stored() {
    assert_eq!(store_refusal("../x", 10, None), Some(Refusal::NotAnId));
    assert_eq!(store_refusal("M1", 0, None), Some(Refusal::Empty));
    assert_eq!(store_refusal("M1", 3, Some(9)), Some(Refusal::Short { len: 3, listed: 9 }));
    assert_eq!(store_refusal("M1", 9, Some(9)), None);
}

#[test]
fn reads_gather_until_the_end_or_a_failure() {
    let mut source = Vec::new();
    assert_eq!(read_step(&mut source, 3, b"abcdef"), ReadStep::More);
    assert_eq!(read_step(&mut source, 2, b"xyz"), ReadStep::More);
    assert_eq!(source, b"abcxy".to_vec());
    assert_eq!(read_step(&mut source, 0, b"zzz"), ReadStep::Done);
    assert_eq!(read_step(&mut source, -1, b"zzz"), ReadStep::Failed);
    assert_eq!(source, b"abcxy".to_vec());
}

#[test]
fn a_write_is_whole_only_when_everything_went() {
    assert!(stored_completely(true, true, 5, 5));
    assert!(!stored_completely(true, true, 4, 5));
    assert!(!stored_completely(false, true, 5, 5));
    assert!(!stored_completely(true, false, 5, 5));
}

#[test]
fn the_expiry_bound_is_thirty_days_and_never_negative() {
    assert_eq!(UNUSED_FOR_SECS, 2_592_000);
    assert_eq!(expire_after(UNUSED_FOR_SECS), 2_592_000);
    assert_eq!(expire_after(u64::MAX), i64::MAX);
}
