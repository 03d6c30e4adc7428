//! Line endings of a message on its way to the server.
//!
//! A message written by Camel's own emitter has bare LF line endings; RFC 5322
//! §2.1 defines a line as CRLF-terminated. `crlf` inserts a CR before every LF
//! that does not already have one, and touches nothing else: a CRLF stays one,
//! a lone CR stays where it is, and no dot is stuffed.

use vstd::prelude::*;

verus! {

/// The line feed byte.
pub const LF: u8 = 0x0a;

/// The carriage return byte.
pub const CR: u8 = 0x0d;

/// The bytes of `s` with line endings made CRLF, given that the byte before
/// `s` was `previous` (zero at the start of a message, which is neither CR nor
/// LF).
pub open spec fn crlf_after(s: Seq<u8>, previous: u8) -> Seq<u8>
    decreases s.len(),
{
    if s.len() == 0 {
        Seq::empty()
    } else {
        let byte = s[0];
        let head = if byte == LF && previous != CR {
            seq![CR, LF]
        } else {
            seq![byte]
        };
        head + crlf_after(s.drop_first(), byte)
    }
}

/// The whole message with CRLF line endings.
pub open spec fn spec_crlf(s: Seq<u8>) -> Seq<u8> {
    crlf_after(s, 0)
}

/// Whether every LF in `t` has a CR right before it, counting `previous` as the
/// byte before the first one.
pub open spec fn line_endings_are_crlf(t: Seq<u8>, previous: u8) -> bool {
    forall|i: int|
        0 <= i < t.len() && #[trigger] t[i] == LF ==> (if i == 0 {
            previous == CR
        } else {
            t[i - 1] == CR
        })
}

/// How many LFs of `s` have no CR before them.
pub open spec fn bare_lf_count(s: Seq<u8>, previous: u8) -> nat
    decreases s.len(),
{
    if s.len() == 0 {
        0
    } else {
        let here: nat = if s[0] == LF && previous != CR {
            1
        } else {
            0
        };
        here + bare_lf_count(s.drop_first(), s[0])
    }
}

/// One step of the conversion, at position `i` of `s`.
proof fn lemma_crlf_step(s: Seq<u8>, i: int, previous: u8)
    requires
        0 <= i < s.len(),
        previous == (if i == 0 {
            0u8
        } else {
            s[i - 1]
        }),
    ensures
        crlf_after(s.skip(i), previous) == (if s[i] == LF && previous != CR {
            seq![CR, LF]
        } else {
            seq![s[i]]
        }) + crlf_after(s.skip(i + 1), s[i]),
{
    assert(s.skip(i).drop_first() =~= s.skip(i + 1));
}

/// Text whose line endings are already CRLF is left exactly as it is.
pub proof fn lemma_crlf_fixpoint(t: Seq<u8>, previous: u8)
    requires
        line_endings_are_crlf(t, previous),
    ensures
        crlf_after(t, previous) == t,
    decreases t.len(),
{
    if t.len() > 0 {
        let rest = t.drop_first();
        assert forall|i: int| 0 <= i < rest.len() && #[trigger] rest[i] == LF implies (if i == 0 {
            t[0] == CR
        } else {
            rest[i - 1] == CR
        }) by {
            assert(t[i + 1] == LF);
        }
        lemma_crlf_fixpoint(rest, t[0]);
        assert(t[0] == LF ==> previous == CR);
        assert(seq![t[0]] + rest =~= t);
    }
}

/// What the conversion produces always has CRLF line endings.
pub proof fn lemma_crlf_terminates_lines(s: Seq<u8>, previous: u8)
    ensures
        line_endings_are_crlf(crlf_after(s, previous), previous),
    decreases s.len(),
{
    if s.len() > 0 {
        let byte = s[0];
        let head = if byte == LF && previous != CR {
            seq![CR, LF]
        } else {
            seq![byte]
        };
        let rest = crlf_after(s.drop_first(), byte);
        lemma_crlf_terminates_lines(s.drop_first(), byte);
        let out = head + rest;
        assert(out == crlf_after(s, previous));
        assert forall|i: int| 0 <= i < out.len() && #[trigger] out[i] == LF implies (if i == 0 {
            previous == CR
        } else {
            out[i - 1] == CR
        }) by {
            if i >= head.len() {
                let j = i - head.len();
                assert(rest[j] == LF);
                if j == 0 {
                    assert(out[i - 1] == head[head.len() - 1]);
                } else {
                    assert(out[i - 1] == rest[j - 1]);
                }
            }
        }
    }
}

/// The conversion adds exactly one byte per bare LF.
pub proof fn lemma_crlf_length(s: Seq<u8>, previous: u8)
    ensures
        crlf_after(s, previous).len() == s.len() + bare_lf_count(s, previous),
    decreases s.len(),
{
    if s.len() > 0 {
        lemma_crlf_length(s.drop_first(), s[0]);
    }
}

/// Bytes with no LF in them come through unchanged.
pub proof fn lemma_crlf_without_lf(s: Seq<u8>, previous: u8)
    requires
        !s.contains(LF),
    ensures
        crlf_after(s, previous) == s,
{
    assert(line_endings_are_crlf(s, previous)) by {
        assert forall|i: int| 0 <= i < s.len() && #[trigger] s[i] == LF implies false by {
            assert(s.contains(s[i]));
        }
    }
    lemma_crlf_fixpoint(s, previous);
}

/// Converting twice is converting once: a message already on its way out is
/// never altered a second time.
pub proof fn law_crlf_idempotent(s: Seq<u8>)
    ensures
        spec_crlf(spec_crlf(s)) == spec_crlf(s),
{
    lemma_crlf_terminates_lines(s, 0);
    lemma_crlf_fixpoint(spec_crlf(s), 0);
}

/// Every LF of a converted message has its CR, and the conversion added one
/// byte for each LF that lacked one and nothing else.
pub proof fn law_crlf_line_endings(s: Seq<u8>)
    ensures
        forall|i: int|
            0 <= i < spec_crlf(s).len() && #[trigger] spec_crlf(s)[i] == LF ==> i > 0
                && spec_crlf(s)[i - 1] == CR,
        spec_crlf(s).len() == s.len() + bare_lf_count(s, 0),
{
    lemma_crlf_terminates_lines(s, 0);
    lemma_crlf_length(s, 0);
}

/// Whether `source` holds an LF at all.
fn holds_lf(source: &Vec<u8>) -> (found: bool)
    ensures
        found == source@.contains(LF),
{
    let mut i: usize = 0;
    while i < source.len()
        invariant
            i <= source.len(),
            forall|j: int| 0 <= j < i ==> source@[j] != LF,
        decreases source.len() - i,
    {
        if source[i] == LF {
            assert(source@[i as int] == LF);
            return true;
        }
        i = i + 1;
    }
    assert forall|j: int| 0 <= j < source@.len() implies source@[j] != LF by {}
    false
}

/// The bytes with every line ending CRLF, as RFC 5322 §2.1 defines a line.
///
/// A CR is inserted before an LF that does not already have one, and nothing
/// else is changed: a CRLF stays one rather than becoming CR CRLF, and a lone
/// CR, which is not a line ending, is left where it is.
pub fn crlf(source: Vec<u8>) -> (converted: Vec<u8>)
    ensures
        converted@ == spec_crlf(source@),
{
    if !holds_lf(&source) {
        proof {
            lemma_crlf_without_lf(source@, 0);
        }
        return source;
    }
    let mut converted: Vec<u8> = Vec::new();
    let mut previous: u8 = 0;
    let mut i: usize = 0;
    assert(source@.skip(0) =~= source@);
    while i < source.len()
        invariant
            i <= source.len(),
            previous == (if i == 0 {
                0u8
            } else {
                source@[i - 1]
            }),
            spec_crlf(source@) == converted@ + crlf_after(source@.skip(i as int), previous),
        decreases source.len() - i,
    {
        let byte = source[i];
        proof {
            lemma_crlf_step(source@, i as int, previous);
        }
        let ghost before = converted@;
        if byte == LF && previous != CR {
            converted.push(CR);
        }
        converted.push(byte);
        proof {
            let head = if byte == LF && previous != CR {
                seq![CR, LF]
            } else {
                seq![byte]
            };
            assert(converted@ =~= before + head);
            assert(before + (head + crlf_after(source@.skip(i + 1), byte)) =~= (before + head)
                + crlf_after(source@.skip(i + 1), byte));
        }
        previous = byte;
        i = i + 1;
    }
    assert(source@.skip(i as int) =~= Seq::<u8>::empty());
    assert(converted@ + Seq::<u8>::empty() =~= converted@);
    converted
}

} // verus!
