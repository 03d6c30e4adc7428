use jmap_mail::envelope::{read_envelope, AddressEntry, AddressList, EnvelopeAddress, EnvelopeError};

fn entry(name: Option<&str>, email: Option<&str>) -> AddressEntry {
    AddressEntry { name: name.map(str::to_owned), email: email.map(str::to_owned) }
}

#[test]
fn an_envelope_takes_the_first_sender_and_every_recipient() {
    let from = AddressList::Entries(vec![entry(Some("Me"), Some("me@example.org")), entry(None, Some("other@example.org"))]);
    let to = AddressList::Entries(vec![entry(None, Some("a@example.org")), entry(Some("B"), Some("b@example.org"))]);
    let envelope = read_envelope(&from, &to).unwrap();
    assert_eq!(envelope.mail_from, EnvelopeAddress { email: "me@example.org".to_owned() });
    assert_eq!(
        envelope.rcpt_to,
        vec![
            EnvelopeAddress { email: "a@example.org".to_owned() },
            EnvelopeAddress { email: "b@example.org".to_owned() },
        ]
    );
}

#[test]
fn an_argument_that_is_not_an_internet_address_is_refused() {
    let to = AddressList::Entries(vec![entry(None, Some("a@example.org"))]);
    assert_eq!(read_envelope(&AddressList::NotInternet, &to), Err(EnvelopeError::NotInternet("sender")));
    let from = AddressList::Entries(vec![entry(None, Some("me@example.org"))]);
    assert_eq!(read_envelope(&from, &AddressList::NotInternet), Err(EnvelopeError::NotInternet("recipients")));
}

#[test]
fn no_sender_and_no_recipients_are_refused() {
    let to = AddressList::Entries(vec![entry(None, Some("a@example.org"))]);
    assert_eq!(read_envelope(&AddressList::Absent, &to), Err(EnvelopeError::NoSender));
    let empty_sender = AddressList::Entries(vec![entry(Some("Me"), Some(""))]);
    assert_eq!(read_envelope(&empty_sender, &to), Err(EnvelopeError::NoSender));
    let from = AddressList::Entries(vec![entry(None, Some("me@example.org"))]);
    assert_eq!(read_envelope(&from, &AddressList::Absent), Err(EnvelopeError::NoRecipients));
    assert_eq!(read_envelope(&from, &AddressList::Entries(vec![])), Err(EnvelopeError::NoRecipients));
}

#[test]
fn a_recipient_without_an_address_is_named_not_dropped() {
    let from = AddressList::Entries(vec![entry(None, Some("me@example.org"))]);
    let to = AddressList::Entries(vec![entry(None, Some("a@example.org")), entry(Some("Bob"), None)]);
    assert_eq!(
        read_envelope(&from, &to),
        Err(EnvelopeError::UnusableRecipient { index: 1, name: Some("Bob".to_owned()) })
    );
}

#[test]
fn a_refusal_says_which_address_is_missing() {
    assert_eq!(EnvelopeError::NoSender.message(), "the message has no sender address");
    assert_eq!(EnvelopeError::NoRecipients.message(), "the message has no recipients");
    assert_eq!(EnvelopeError::NotInternet("sender").message(), "the sender are not internet addresses");
    assert_eq!(
        EnvelopeError::UnusableRecipient { index: 1, name: Some("Bob".to_owned()) }.message(),
        "no address for the recipient \"Bob\""
    );
    assert_eq!(
        EnvelopeError::UnusableRecipient { index: 11, name: None }.message(),
        "no address for recipient 12"
    );
    assert_eq!(
        EnvelopeError::UnusableRecipient { index: 0, name: Some(String::new()) }.message(),
        "no address for recipient 1"
    );
}
