//! The SMTP envelope, out of the addresses Camel hands a transport.
//!
//! `send_to_sync` is given the message and, separately, who it is from and
//! who it goes to: the `MAIL FROM` and the `RCPT TO`s of the transaction, which
//! RFC 8621 §7 has an `EmailSubmission` carry as its `envelope`. They are
//! carried rather than derived from the headers because the two genuinely
//! differ: a `Bcc` recipient is a recipient with no header.
//!
//! The display names are dropped, because the envelope has nowhere to put one.
//! Nothing else is: the list is not deduplicated, reordered, filtered or
//! completed from the headers. And every failure is a refusal to send at all —
//! the alternative to refusing an address with no addr-spec is dropping it,
//! and a dropped recipient is a message the user believes they sent to
//! somebody who never received it.

use vstd::prelude::*;

use crate::text::{decimal, push_decimal, push_str, string_of};

verus! {

/// One entry of a `CamelInternetAddress`: its display name and its addr-spec,
/// each `None` where Camel has nothing. An entry whose read failed is both
/// `None`.
#[derive(Debug, PartialEq, Eq)]
pub struct AddressEntry {
    pub name: Option<String>,
    pub email: Option<String>,
}

/// One of `send_to_sync`'s two address arguments, as read.
#[derive(Debug, PartialEq, Eq)]
pub enum AddressList {
    /// NULL, which is the empty list however Camel spells it.
    Absent,
    /// A `CamelAddress` that is not a `CamelInternetAddress`.
    NotInternet,
    /// The entries, in the order Camel lists them.
    Entries(Vec<AddressEntry>),
}

/// An address of the envelope: an addr-spec and nothing else.
#[derive(Debug, PartialEq, Eq)]
pub struct EnvelopeAddress {
    pub email: String,
}

/// RFC 8621 §7's `Envelope`.
#[derive(Debug, PartialEq, Eq)]
pub struct Envelope {
    pub mail_from: EnvelopeAddress,
    pub rcpt_to: Vec<EnvelopeAddress>,
}

/// A pair of addresses that does not describe a message that can be delivered.
#[derive(Debug, PartialEq, Eq)]
pub enum EnvelopeError {
    /// One of the two arguments is not an internet address; the field names
    /// which, `"sender"` or `"recipients"`.
    NotInternet(&'static str),
    /// There is no address to put in `MAIL FROM`.
    NoSender,
    /// There is nobody to deliver to.
    NoRecipients,
    /// One recipient has no addr-spec, named by the position Camel listed it at
    /// and by its display name if it has one.
    UnusableRecipient { index: usize, name: Option<String> },
}

/// A string Camel handed over, where the empty string means nothing is there.
pub open spec fn present(s: Option<String>) -> Option<Seq<char>> {
    match s {
        Some(s) => if s@.len() > 0 {
            Some(s@)
        } else {
            None
        },
        None => None,
    }
}

/// The entries of an argument: none for NULL.
pub open spec fn entries(list: AddressList) -> Seq<AddressEntry> {
    match list {
        AddressList::Entries(v) => v@,
        _ => Seq::empty(),
    }
}

/// The first recipient at or after `i` without an addr-spec.
pub open spec fn first_unusable(rcpt: Seq<AddressEntry>, i: int) -> Option<int>
    decreases rcpt.len() - i,
{
    if 0 <= i < rcpt.len() {
        if present(rcpt[i].email) is None {
            Some(i)
        } else {
            first_unusable(rcpt, i + 1)
        }
    } else {
        None
    }
}

/// How `send_to_sync`'s arguments are judged, before anything is built.
pub enum Verdict {
    Refused(EnvelopeError),
    Deliverable,
}

/// Why the pair `from`/`recipients` is refused, or that it is not. The sender
/// is entry zero, which is what every Camel transport reads.
pub open spec fn spec_verdict(from: AddressList, recipients: AddressList) -> Verdict {
    if from is NotInternet {
        Verdict::Refused(EnvelopeError::NotInternet("sender"))
    } else if recipients is NotInternet {
        Verdict::Refused(EnvelopeError::NotInternet("recipients"))
    } else if entries(from).len() == 0 || present(entries(from)[0].email) is None {
        Verdict::Refused(EnvelopeError::NoSender)
    } else if entries(recipients).len() == 0 {
        Verdict::Refused(EnvelopeError::NoRecipients)
    } else {
        match first_unusable(entries(recipients), 0) {
            Some(i) => Verdict::Refused(
                EnvelopeError::UnusableRecipient {
                    index: i as usize,
                    name: entries(recipients)[i].name,
                },
            ),
            None => Verdict::Deliverable,
        }
    }
}

/// Whether `e` is the refusal `expected`, names compared by what they say and
/// an empty name taken as no name.
pub open spec fn same_refusal(e: EnvelopeError, expected: EnvelopeError) -> bool {
    match (e, expected) {
        (
            EnvelopeError::UnusableRecipient { index: i, name: n },
            EnvelopeError::UnusableRecipient { index: j, name: m },
        ) => i == j && present(n) == present(m),
        (EnvelopeError::NotInternet(a), EnvelopeError::NotInternet(b)) => a@ == b@,
        _ => e == expected,
    }
}

/// What [`read_envelope`] answers for `from` and `recipients`.
pub open spec fn envelope_matches(
    res: Result<Envelope, EnvelopeError>,
    from: AddressList,
    recipients: AddressList,
) -> bool {
    match spec_verdict(from, recipients) {
        Verdict::Refused(expected) => res matches Err(e) && same_refusal(e, expected),
        Verdict::Deliverable => res matches Ok(env) && {
            &&& Some(env.mail_from.email@) == present(entries(from)[0].email)
            &&& env.rcpt_to@.len() == entries(recipients).len()
            &&& forall|i: int|
                0 <= i < env.rcpt_to@.len() ==> Some(#[trigger] env.rcpt_to@[i].email@)
                    == present(entries(recipients)[i].email)
        },
    }
}

fn present_email(entry: &AddressEntry) -> (email: Option<&String>)
    ensures
        match email {
            Some(e) => present(entry.email) == Some(e@),
            None => present(entry.email) is None,
        },
{
    match &entry.email {
        Some(e) => if e.as_str().unicode_len() > 0 {
            Some(e)
        } else {
            None
        },
        None => None,
    }
}

/// The envelope `send_to_sync`'s two address arguments describe, or the
/// reason it refuses to send at all.
pub fn read_envelope(from: &AddressList, recipients: &AddressList) -> (res: Result<
    Envelope,
    EnvelopeError,
>)
    ensures
        envelope_matches(res, *from, *recipients),
{
    let senders: &[AddressEntry] = match from {
        AddressList::NotInternet => {
            return Err(EnvelopeError::NotInternet("sender"));
        },
        AddressList::Absent => &[],
        AddressList::Entries(v) => v.as_slice(),
    };
    let listed: &[AddressEntry] = match recipients {
        AddressList::NotInternet => {
            return Err(EnvelopeError::NotInternet("recipients"));
        },
        AddressList::Absent => &[],
        AddressList::Entries(v) => v.as_slice(),
    };
    assert(senders@ == entries(*from));
    assert(listed@ == entries(*recipients));
    if senders.len() == 0 {
        return Err(EnvelopeError::NoSender);
    }
    let mail_from = match present_email(&senders[0]) {
        Some(e) => e.clone(),
        None => {
            return Err(EnvelopeError::NoSender);
        },
    };
    if listed.len() == 0 {
        return Err(EnvelopeError::NoRecipients);
    }
    let mut rcpt_to: Vec<EnvelopeAddress> = Vec::new();
    let mut i: usize = 0;
    while i < listed.len()
        invariant
            i <= listed@.len(),
            listed@ == entries(*recipients),
            listed@.len() > 0,
            !(*from is NotInternet),
            !(*recipients is NotInternet),
            entries(*from).len() > 0,
            present(entries(*from)[0].email) == Some(mail_from@),
            first_unusable(listed@, 0) == first_unusable(listed@, i as int),
            rcpt_to@.len() == i,
            forall|j: int|
                0 <= j < i ==> Some(#[trigger] rcpt_to@[j].email@) == present(listed@[j].email),
        decreases listed@.len() - i,
    {
        match present_email(&listed[i]) {
            Some(e) => {
                rcpt_to.push(EnvelopeAddress { email: e.clone() });
            },
            None => {
                let name = match &listed[i].name {
                    Some(n) => Some(n.clone()),
                    None => None,
                };
                return Err(EnvelopeError::UnusableRecipient { index: i, name });
            },
        }
        i = i + 1;
    }
    Ok(Envelope { mail_from: EnvelopeAddress { email: mail_from }, rcpt_to })
}

/// What a refusal says to the user.
pub open spec fn spec_message(e: EnvelopeError) -> Seq<char> {
    match e {
        EnvelopeError::NotInternet(which) => "the "@ + which@ + " are not internet addresses"@,
        EnvelopeError::NoSender => "the message has no sender address"@,
        EnvelopeError::NoRecipients => "the message has no recipients"@,
        EnvelopeError::UnusableRecipient { index, name } => match present(name) {
            Some(n) => "no address for the recipient \""@ + n + "\""@,
            None => "no address for recipient "@ + decimal(index as nat + 1),
        },
    }
}

impl EnvelopeError {
    /// The sentence this refusal is reported with: which address is missing,
    /// since that is what the user can do something about.
    pub fn message(&self) -> (m: String)
        ensures
            m@ == spec_message(*self),
    {
        let mut out: Vec<char> = Vec::new();
        match self {
            EnvelopeError::NotInternet(which) => {
                push_str(&mut out, "the ");
                push_str(&mut out, which);
                push_str(&mut out, " are not internet addresses");
            },
            EnvelopeError::NoSender => {
                push_str(&mut out, "the message has no sender address");
            },
            EnvelopeError::NoRecipients => {
                push_str(&mut out, "the message has no recipients");
            },
            EnvelopeError::UnusableRecipient { index, name } => {
                let named = match name {
                    Some(n) => if n.as_str().unicode_len() > 0 {
                        Some(n)
                    } else {
                        None
                    },
                    None => None,
                };
                match named {
                    Some(n) => {
                        push_str(&mut out, "no address for the recipient \"");
                        push_str(&mut out, n.as_str());
                        push_str(&mut out, "\"");
                    },
                    None => {
                        push_str(&mut out, "no address for recipient ");
                        push_decimal(&mut out, *index as u128 + 1);
                    },
                }
            },
        }
        proof {
            assert(out@ =~= spec_message(*self));
        }
        string_of(out.as_slice())
    }
}

/// Nothing is dropped on the way: a deliverable envelope has every recipient
/// Camel listed, in Camel's order, and refusing one entry refuses the send.
pub proof fn law_no_recipient_is_dropped(from: AddressList, recipients: AddressList, res: Result<
    Envelope,
    EnvelopeError,
>)
    requires
        envelope_matches(res, from, recipients),
    ensures
        res is Ok ==> res->Ok_0.rcpt_to@.len() == entries(recipients).len(),
        (exists|i: int|
            0 <= i < entries(recipients).len() && present(#[trigger] entries(recipients)[i].email)
                is None) ==> res is Err,
{
    if res is Ok {
        let env = res->Ok_0;
        assert forall|i: int|
            0 <= i < entries(recipients).len() implies present(
            #[trigger] entries(recipients)[i].email,
        ) is Some by {
            assert(Some(env.rcpt_to@[i].email@) == present(entries(recipients)[i].email));
        }
    }
}

} // verus!
