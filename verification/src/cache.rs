//! What the account's message cache stores and what it serves.
//!
//! A JMAP `Email` is immutable, so the bytes of a message fetched once are the
//! bytes of every later fetch, and Camel's `CamelDataCache` keeps them in a
//! file per message under the account's cache directory. These are the
//! decisions around that file; the file itself is Camel's.
//!
//! **A uid is about to become a file name.** RFC 8620 §1.2 limits an id to
//! URL-safe characters, and a server that answered with
//! `../../../.config/autostart` would otherwise choose where this provider
//! writes. [`valid_key`] is the RFC's own grammar, and a uid that fails it is
//! simply not cached.
//!
//! **An entry is checked against the row it belongs to.** A process that died
//! between creating an entry and finishing its write leaves a short file, which
//! Camel's parser would read as a complete message with a truncated body. The
//! folder's row claims the message's size — RFC 8621 §4.1's `size` — so an
//! entry that is empty or shorter than that is not served
//! ([`loaded_damage`]), and one is never written ([`store_refusal`]). Shorter,
//! not different: a server whose size is off in the other direction would
//! otherwise have every message downloaded again at every open.

use vstd::prelude::*;

use crate::text::chars_of;

verus! {

/// The size a summary row claims, out of the number it carries. Zero is not a
/// claim: it is what a row that was never given a size holds, and RFC 5322 has
/// no zero-octet message for it to honestly mean.
pub open spec fn spec_claimed(listed: Option<u32>) -> Option<u32> {
    match listed {
        Some(n) => if n != 0 {
            Some(n)
        } else {
            None
        },
        None => None,
    }
}

/// The size a summary row claims, if it claims one.
pub fn claimed(listed: Option<u32>) -> (c: Option<u32>)
    ensures
        c == spec_claimed(listed),
{
    match listed {
        Some(n) => if n != 0 {
            Some(n)
        } else {
            None
        },
        None => None,
    }
}

/// Whether `c` may appear in an RFC 8620 §1.2 id: `A-Za-z0-9_-`.
pub open spec fn is_id_char(c: char) -> bool {
    ('A' <= c && c <= 'Z') || ('a' <= c && c <= 'z') || ('0' <= c && c <= '9') || c == '_' || c
        == '-'
}

/// The RFC 8620 §1.2 grammar: one to 255 id characters, not beginning with a
/// dash. `.` and `..` fail it by their characters, and the empty key — which
/// would name the directory itself — by its length.
pub open spec fn spec_valid_key(key: Seq<char>) -> bool {
    &&& 1 <= key.len() <= 255
    &&& key[0] != '-'
    &&& forall|i: int| 0 <= i < key.len() ==> is_id_char(#[trigger] key[i])
}

/// Whether `key` is an id RFC 8620 §1.2 allows, and therefore a file name this
/// cache is willing to create.
pub fn valid_key(key: &str) -> (ok: bool)
    ensures
        ok == spec_valid_key(key@),
{
    let chars = chars_of(key);
    if chars.len() == 0 || chars.len() > 255 || chars[0] == '-' {
        return false;
    }
    let mut i: usize = 0;
    while i < chars.len()
        invariant
            i <= chars@.len(),
            chars@ == key@,
            forall|j: int| 0 <= j < i ==> is_id_char(#[trigger] chars@[j]),
        decreases chars@.len() - i,
    {
        let c = chars[i];
        if !(('A' <= c && c <= 'Z') || ('a' <= c && c <= 'z') || ('0' <= c && c <= '9') || c
            == '_' || c == '-') {
            return false;
        }
        i = i + 1;
    }
    true
}

/// Why a cache entry is not a message.
#[derive(Debug, Clone, Copy, PartialEq, Eq, Structural)]
pub enum Damage {
    /// It has nothing in it.
    Empty,
    /// It is `len` octets where the message is `listed`.
    Short { len: usize, listed: u32 },
}

/// What is wrong with an entry of `len` octets for a row claiming `listed`.
pub open spec fn spec_loaded_damage(len: usize, listed: Option<u32>) -> Option<Damage> {
    if len == 0 {
        Some(Damage::Empty)
    } else {
        match spec_claimed(listed) {
            Some(n) => if (len as int) < (n as int) {
                Some(Damage::Short { len, listed: n })
            } else {
                None
            },
            None => None,
        }
    }
}

/// What is wrong with an entry of `len` octets read back for a row claiming
/// `listed`, or `None` when it may be served. A damaged entry is dropped, not
/// merely refused: nothing will ever serve it.
pub fn loaded_damage(len: usize, listed: Option<u32>) -> (d: Option<Damage>)
    ensures
        d == spec_loaded_damage(len, listed),
{
    if len == 0 {
        return Some(Damage::Empty);
    }
    match claimed(listed) {
        Some(n) => if (len as u64) < (n as u64) {
            Some(Damage::Short { len, listed: n })
        } else {
            None
        },
        None => None,
    }
}

/// Why a message is not written to the cache.
#[derive(Debug, Clone, Copy, PartialEq, Eq, Structural)]
pub enum Refusal {
    /// The uid is not a JMAP id, so it cannot be a file name.
    NotAnId,
    /// The message has no bytes.
    Empty,
    /// The message arrived `len` octets long where its row says `listed`.
    Short { len: usize, listed: u32 },
}

/// Why a message of `len` octets under `uid`, for a row claiming `listed`, is
/// not cached.
pub open spec fn spec_store_refusal(uid: Seq<char>, len: usize, listed: Option<u32>) -> Option<
    Refusal,
> {
    if !spec_valid_key(uid) {
        Some(Refusal::NotAnId)
    } else if len == 0 {
        Some(Refusal::Empty)
    } else {
        match spec_claimed(listed) {
            Some(n) => if (len as int) < (n as int) {
                Some(Refusal::Short { len, listed: n })
            } else {
                None
            },
            None => None,
        }
    }
}

/// Why `uid`'s bytes, `len` octets for a row claiming `listed`, are not to be
/// cached, or `None` when they are to be written.
pub fn store_refusal(uid: &str, len: usize, listed: Option<u32>) -> (r: Option<Refusal>)
    ensures
        r == spec_store_refusal(uid@, len, listed),
{
    if !valid_key(uid) {
        return Some(Refusal::NotAnId);
    }
    match loaded_damage(len, listed) {
        Some(Damage::Empty) => Some(Refusal::Empty),
        Some(Damage::Short { len, listed }) => Some(Refusal::Short { len, listed }),
        None => None,
    }
}

/// The cache never writes an entry it would refuse to serve, and never serves
/// an entry shorter than its row claims.
pub proof fn law_stored_entries_are_served(uid: Seq<char>, len: usize, listed: Option<u32>)
    ensures
        spec_store_refusal(uid, len, listed) is None ==> spec_loaded_damage(len, listed) is None,
        spec_loaded_damage(len, listed) is None ==> len > 0 && (listed matches Some(n) ==> n
            <= len),
{
}

/// What one read of a cache entry means for the copy being gathered.
#[derive(Debug, Clone, Copy, PartialEq, Eq, Structural)]
pub enum ReadStep {
    /// Bytes arrived and were kept; read again.
    More,
    /// The entry is at its end; the copy is whole.
    Done,
    /// The read failed; the copy is not a message.
    Failed,
}

/// Takes in one read of `read` octets into `chunk`: a negative count is a
/// failed read, zero is the end of the entry, and anything else is that many
/// octets of `chunk` appended to `source`.
pub fn read_step(source: &mut Vec<u8>, read: isize, chunk: &[u8]) -> (step: ReadStep)
    requires
        read <= chunk@.len(),
    ensures
        read < 0 ==> step == ReadStep::Failed && final(source)@ == old(source)@,
        read == 0 ==> step == ReadStep::Done && final(source)@ == old(source)@,
        read > 0 ==> step == ReadStep::More && final(source)@ == old(source)@ + chunk@.take(
            read as int,
        ),
{
    if read < 0 {
        return ReadStep::Failed;
    }
    if read == 0 {
        return ReadStep::Done;
    }
    let n = read as usize;
    let ghost start = source@;
    let mut i: usize = 0;
    while i < n
        invariant
            n == read,
            n <= chunk@.len(),
            i <= n,
            source@ =~= start + chunk@.take(i as int),
        decreases n - i,
    {
        source.push(chunk[i]);
        i = i + 1;
    }
    ReadStep::More
}

/// Whether a write into the cache left a whole entry: every octet written,
/// the stream closed, and the count the stream reports the message's length.
/// Anything less is an entry that is dropped rather than kept.
pub fn stored_completely(written_all: bool, closed: bool, written: usize, len: usize) -> (r: bool)
    ensures
        r == (written_all && closed && written == len),
{
    written_all && closed && written == len
}

/// How long an entry survives without being opened: thirty days.
pub const UNUSED_FOR_SECS: u64 = 30 * 24 * 60 * 60;

/// The bound Camel is given, as the `time_t` it reads it as. Camel spells "no
/// bound" as -1, so a duration too large for a `time_t` is clamped to the
/// largest bound rather than wrapped into one that turns the sweep off.
pub fn expire_after(secs: u64) -> (t: i64)
    ensures
        t >= 0,
        secs <= i64::MAX ==> t == secs,
        secs > i64::MAX ==> t == i64::MAX,
{
    if secs > 0x7fff_ffff_ffff_ffff {
        0x7fff_ffff_ffff_ffff
    } else {
        secs as i64
    }
}

} // verus!
