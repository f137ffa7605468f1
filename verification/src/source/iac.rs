//! Telnet IAC (Interpret As Command) sequence stripping.
//!
//! DX cluster nodes use the telnet protocol. IAC control sequences are
//! stripped from the data stream and all option negotiations are refused.

use vstd::prelude::*;

verus! {

/// Interpret As Command.
pub const IAC: u8 = 255;

/// The sender wants to enable an option.
pub const WILL: u8 = 251;

/// The sender refuses to enable an option.
pub const WONT: u8 = 252;

/// The sender asks the receiver to enable an option.
pub const DO: u8 = 253;

/// The sender asks the receiver not to enable an option.
pub const DONT: u8 = 254;

/// Subnegotiation begins.
pub const SB: u8 = 250;

/// Subnegotiation ends.
pub const SE: u8 = 240;

/// Result of IAC stripping.
pub struct IacStripResult {
    /// IAC WONT responses to send back for each IAC DO received.
    pub responses: Vec<[u8; 3]>,
}

/// The responses as byte sequences.
pub open spec fn response_bytes(list: Seq<[u8; 3]>) -> Seq<Seq<u8>> {
    Seq::new(list.len(), |i: int| list[i]@)
}

/// Number of bytes of a subnegotiation up to and including its end, all bytes
/// where it does not end.
pub open spec fn subnegotiation_len(s: Seq<u8>) -> nat
    decreases s.len(),
{
    if s.len() == 0 {
        0
    } else if s[0] == IAC && s.len() > 1 && s[1] == SE {
        2
    } else {
        1 + subnegotiation_len(s.skip(1))
    }
}

/// Number of bytes that the first item of the stream takes: a plain byte, a
/// trailing IAC, or a command with what belongs to it, as far as it is there.
pub open spec fn item_len(s: Seq<u8>) -> nat {
    if s[0] != IAC || s.len() == 1 {
        1
    } else if s[1] == DO || s[1] == DONT || s[1] == WILL || s[1] == WONT {
        if s.len() > 2 {
            3
        } else {
            2
        }
    } else if s[1] == SB {
        2 + subnegotiation_len(s.skip(2))
    } else {
        2
    }
}

/// What the first item of the stream leaves: a plain byte and a trailing IAC
/// stay, an escaped IAC becomes one byte, commands vanish.
pub open spec fn item_data(s: Seq<u8>) -> Seq<u8> {
    if s[0] != IAC || s.len() == 1 || s[1] == IAC {
        seq![s[0]]
    } else {
        seq![]
    }
}

/// What is answered to the first item of the stream: a request to enable an
/// option is refused.
pub open spec fn item_reply(s: Seq<u8>) -> Seq<Seq<u8>> {
    if s.len() > 2 && s[0] == IAC && s[1] == DO {
        seq![seq![IAC, WONT, s[2]]]
    } else {
        seq![]
    }
}

/// The data of the stream.
pub open spec fn data_of(s: Seq<u8>) -> Seq<u8>
    decreases s.len() via data_decreases
{
    if s.len() == 0 {
        seq![]
    } else {
        item_data(s) + data_of(s.skip(item_len(s) as int))
    }
}

/// What is answered to the stream.
pub open spec fn replies_to(s: Seq<u8>) -> Seq<Seq<u8>>
    decreases s.len() via replies_decreases
{
    if s.len() == 0 {
        seq![]
    } else {
        item_reply(s) + replies_to(s.skip(item_len(s) as int))
    }
}

#[via_fn]
proof fn data_decreases(s: Seq<u8>) {
    if s.len() > 0 {
        lemma_item_len(s);
    }
}

#[via_fn]
proof fn replies_decreases(s: Seq<u8>) {
    if s.len() > 0 {
        lemma_item_len(s);
    }
}

// ---------------------------------------------------------------------------
// Laws
// ---------------------------------------------------------------------------

proof fn lemma_subnegotiation_len(s: Seq<u8>)
    ensures
        subnegotiation_len(s) <= s.len(),
    decreases s.len(),
{
    if s.len() > 0 && !(s[0] == IAC && s.len() > 1 && s[1] == SE) {
        lemma_subnegotiation_len(s.skip(1));
    }
}

/// An item takes at least one byte and no more than there are.
pub proof fn lemma_item_len(s: Seq<u8>)
    requires
        s.len() > 0,
    ensures
        1 <= item_len(s) <= s.len(),
{
    if s.len() > 1 {
        lemma_subnegotiation_len(s.skip(2));
    }
}

/// Plain bytes in front of a stream are passed on as they are, and nothing is
/// answered to them.
pub proof fn lemma_plain_passes(plain: Seq<u8>, rest: Seq<u8>)
    requires
        forall|i: int| 0 <= i < plain.len() ==> #[trigger] plain[i] != IAC,
    ensures
        data_of(plain + rest) == plain + data_of(rest),
        replies_to(plain + rest) == replies_to(rest),
    decreases plain.len(),
{
    if plain.len() == 0 {
        assert(plain + rest =~= rest);
        assert(plain + data_of(rest) =~= data_of(rest));
    } else {
        let s = plain + rest;
        let tail = plain.skip(1);
        assert(s[0] == plain[0]);
        assert(s.skip(1) =~= tail + rest);
        assert forall|i: int| 0 <= i < tail.len() implies #[trigger] tail[i] != IAC by {
            assert(tail[i] == plain[i + 1]);
        }
        lemma_plain_passes(tail, rest);
        assert(data_of(s) =~= plain + data_of(rest));
        assert(replies_to(s) =~= replies_to(rest));
    }
}

/// A stream without IAC bytes is unchanged, and nothing is answered.
pub proof fn lemma_no_iac_unchanged(s: Seq<u8>)
    requires
        forall|i: int| 0 <= i < s.len() ==> #[trigger] s[i] != IAC,
    ensures
        data_of(s) == s,
        replies_to(s) == Seq::<Seq<u8>>::empty(),
{
    let none = Seq::<u8>::empty();
    lemma_plain_passes(s, none);
    assert(s + none =~= s);
    assert(s + data_of(none) =~= s);
}

/// Stripping never makes a stream longer.
pub proof fn lemma_not_longer(s: Seq<u8>)
    ensures
        data_of(s).len() <= s.len(),
    decreases s.len(),
{
    if s.len() > 0 {
        lemma_item_len(s);
        lemma_not_longer(s.skip(item_len(s) as int));
    }
}

/// Every answer is a refusal.
pub proof fn lemma_only_refusals(s: Seq<u8>, i: int)
    requires
        0 <= i < replies_to(s).len(),
    ensures
        replies_to(s)[i].len() == 3,
        replies_to(s)[i][0] == IAC,
        replies_to(s)[i][1] == WONT,
    decreases s.len(),
{
    if s.len() > 0 {
        lemma_item_len(s);
        let n = item_reply(s).len();
        if i >= n {
            lemma_only_refusals(s.skip(item_len(s) as int), i - n);
        }
    }
}

// ---------------------------------------------------------------------------
// Stripping
// ---------------------------------------------------------------------------

/// Position behind a subnegotiation whose content begins at `from`.
fn skip_subnegotiation(buf: &Vec<u8>, from: usize) -> (r: usize)
    requires
        from <= buf@.len(),
    ensures
        r == from + subnegotiation_len(buf@.skip(from as int)),
        r <= buf@.len(),
{
    let len: usize = buf.len();
    let mut i: usize = from;
    while i < len
        invariant
            from <= i <= len,
            len == buf@.len(),
            subnegotiation_len(buf@.skip(from as int)) == (i - from) + subnegotiation_len(
                buf@.skip(i as int),
            ),
        decreases len - i,
    {
        let ghost rest = buf@.skip(i as int);
        assert(rest[0] == buf@[i as int]);
        if buf[i] == IAC && len - i > 1 && buf[i + 1] == SE {
            assert(rest[1] == buf@[i + 1]);
            return i + 2;
        }
        proof {
            if len - i > 1 {
                assert(rest[1] == buf@[i + 1]);
            }
            assert(rest.skip(1) =~= buf@.skip(i + 1));
        }
        i += 1;
    }
    i
}

/// Strip telnet IAC sequences from a byte buffer in-place.
///
/// - Removes IAC DO/DONT/WILL/WONT sequences (3 bytes each)
/// - Removes IAC SB ... IAC SE subnegotiation sequences
/// - Converts IAC IAC (escaped 0xFF) to a single 0xFF byte
/// - Collects IAC WONT responses for all IAC DO requests received
///
/// An IAC at the end of the buffer is kept: the sequence might be split across
/// reads. An incomplete sequence at the end is dropped.
pub fn strip_iac(buf: &mut Vec<u8>) -> (r: IacStripResult)
    ensures
        final(buf)@ == data_of(old(buf)@),
        response_bytes(r.responses@) == replies_to(old(buf)@),
{
    let ghost all = buf@;
    let mut out: Vec<u8> = Vec::new();
    let mut responses: Vec<[u8; 3]> = Vec::new();
    let mut read: usize = 0;
    let len: usize = buf.len();
    proof {
        assert(all.skip(0) =~= all);
        assert(out@ + data_of(all) =~= data_of(all));
        assert(response_bytes(responses@) + replies_to(all) =~= replies_to(all));
    }
    while read < len
        invariant
            len == buf@.len(),
            buf@ == all,
            read <= len,
            out@ + data_of(all.skip(read as int)) == data_of(all),
            response_bytes(responses@) + replies_to(all.skip(read as int)) == replies_to(all),
        decreases len - read,
    {
        let ghost rest = all.skip(read as int);
        let ghost out_before = out@;
        let ghost replies_before = response_bytes(responses@);
        let ghost start = read;
        proof {
            lemma_item_len(rest);
            assert(rest[0] == all[read as int]);
            if len - read > 1 {
                assert(rest[1] == all[read + 1]);
                assert(rest.skip(2) =~= all.skip(read + 2));
            }
            if len - read > 2 {
                assert(rest[2] == all[read + 2]);
            }
        }
        let byte: u8 = buf[read];
        if byte != IAC || len - read == 1 {
            out.push(byte);
            read += 1;
        } else {
            let command: u8 = buf[read + 1];
            if command == IAC {
                out.push(IAC);
                read += 2;
            } else if command == DO || command == DONT || command == WILL || command == WONT {
                if len - read > 2 {
                    if command == DO {
                        let response: [u8; 3] = [IAC, WONT, buf[read + 2]];
                        assert(response@ =~= seq![IAC, WONT, rest[2]]);
                        responses.push(response);
                    }
                    read += 3;
                } else {
                    read = len;
                }
            } else if command == SB {
                read = skip_subnegotiation(buf, read + 2);
            } else {
                read += 2;
            }
        }
        proof {
            assert(read == start + item_len(rest));
            assert(rest.skip(item_len(rest) as int) =~= all.skip(read as int));
            assert(out@ =~= out_before + item_data(rest));
            assert(response_bytes(responses@) =~= replies_before + item_reply(rest));
            assert(out@ + data_of(all.skip(read as int)) =~= out_before + data_of(rest));
            assert(response_bytes(responses@) + replies_to(all.skip(read as int))
                =~= replies_before + replies_to(rest));
        }
    }
    proof {
        assert(all.skip(read as int).len() == 0);
        assert(out@ + data_of(all.skip(read as int)) =~= out@);
        assert(response_bytes(responses@) + replies_to(all.skip(read as int)) =~= response_bytes(
            responses@,
        ));
    }
    *buf = out;
    IacStripResult { responses }
}

} // verus!
