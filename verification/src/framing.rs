//! The wire framing of the remote serial protocol: `$<payload>#<cs>`
//! packets, the one-byte urgent interrupt, acknowledgement characters,
//! the run-length and brace escapes inside binary payloads, and the
//! modulo-256 checksum.

use crate::hex::{hex2, hex_digit_char, push_hex2};
use vstd::prelude::*;

verus! {

/// '$', the first byte of every framed packet.
pub const PACKET_START_CHAR: u8 = 36;

/// '#', the byte that ends a payload and announces the checksum.
pub const PACKET_TERM_CHAR: u8 = 35;

/// '}', the escape introducer inside binary payloads.
pub const ESCAPE_CHAR: u8 = 125;

/// '*', the run-length marker inside binary payloads.
pub const RUNLEN_CHAR: u8 = 42;

/// '+', the acknowledgement for a well-formed packet.
pub const ACK_CHAR: u8 = 43;

/// '-', the request to retransmit a damaged packet.
pub const NAK_CHAR: u8 = 45;

/// 0x03, the urgent interrupt, sent outside any frame.
pub const INTERRUPT_CHAR: u8 = 3;

/// The bytes of an ASCII string, character by character.
pub open spec fn ascii_of(s: Seq<char>) -> Seq<u8> {
    Seq::new(s.len(), |i: int| s[i] as u8)
}

/// Append the bytes of an ASCII string literal to `buf`.
pub fn push_ascii(buf: &mut Vec<u8>, s: &str)
    requires
        vstd::string::is_ascii(s),
    ensures
        final(buf)@ == old(buf)@ + ascii_of(s@),
{
    let b: &[u8] = s.as_bytes();
    proof {
        vstd::string::is_ascii_spec_bytes(s);
        assert(b@ =~= ascii_of(s@));
    }
    buf.extend_from_slice(b);
}

/// The running sum of payload bytes, reduced modulo 256 at every step.
pub open spec fn checksum_spec(s: Seq<u8>) -> u8
    decreases s.len(),
{
    if s.len() == 0 {
        0
    } else {
        ((checksum_spec(s.drop_last()) + s.last()) % 256) as u8
    }
}

/// The plain sum of the bytes of `s`.
pub open spec fn byte_sum(s: Seq<u8>) -> nat
    decreases s.len(),
{
    if s.len() == 0 {
        0
    } else {
        (byte_sum(s.drop_last()) + s.last()) as nat
    }
}

/// The checksum is nothing but the low byte of the sum of the bytes
/// summed over: reducing at every step changes nothing.
pub proof fn lemma_checksum_is_byte_sum_mod(s: Seq<u8>)
    ensures
        checksum_spec(s) == byte_sum(s) % 256,
    decreases s.len(),
{
    if s.len() > 0 {
        lemma_checksum_is_byte_sum_mod(s.drop_last());
        vstd::arithmetic::div_mod::lemma_add_mod_noop(
            byte_sum(s.drop_last()) as int,
            s.last() as int,
            256,
        );
    }
}

/// Compute the checksum of `data`.
pub fn compute_checksum(data: &[u8]) -> (r: u8)
    ensures
        r == checksum_spec(data@),
{
    let n: usize = data.len();
    let mut cs: u8 = 0;
    let mut i: usize = 0;
    while i < n
        invariant
            n == data@.len(),
            i <= n,
            cs == checksum_spec(data@.take(i as int)),
        decreases n - i,
    {
        proof {
            assert(data@.take(i + 1 as int).drop_last() =~= data@.take(i as int));
            assert(data@.take(i + 1 as int).last() == data@[i as int]);
        }
        cs = (((cs as u32) + (data[i] as u32)) % 256) as u8;
        i = i + 1;
    }
    proof {
        assert(data@.take(n as int) =~= data@);
    }
    cs
}

/// A whole frame: '$', the payload as given, '#', two checksum digits.
pub open spec fn packet_frame(payload: Seq<u8>) -> Seq<u8> {
    seq![PACKET_START_CHAR] + payload + seq![PACKET_TERM_CHAR] + hex2(checksum_spec(payload))
}

/// The four bytes that may not appear bare in a binary payload.
pub open spec fn needs_escape(b: u8) -> bool {
    b == PACKET_TERM_CHAR || b == PACKET_START_CHAR || b == ESCAPE_CHAR || b == RUNLEN_CHAR
}

/// One byte as the escaped encoding writes it.
pub open spec fn escape_one(b: u8) -> Seq<u8> {
    if needs_escape(b) {
        seq![ESCAPE_CHAR, (b ^ 0x20) as u8]
    } else {
        seq![b]
    }
}

/// A binary payload with every reserved byte escaped.
pub open spec fn escaped_spec(data: Seq<u8>) -> Seq<u8>
    decreases data.len(),
{
    if data.len() == 0 {
        Seq::<u8>::empty()
    } else {
        escape_one(data[0]) + escaped_spec(data.drop_first())
    }
}

proof fn lemma_escaped_concat(a: Seq<u8>, b: Seq<u8>)
    ensures
        escaped_spec(a + b) == escaped_spec(a) + escaped_spec(b),
    decreases a.len(),
{
    if a.len() == 0 {
        assert(a + b =~= b);
        assert(escaped_spec(a) + escaped_spec(b) =~= escaped_spec(b));
    } else {
        assert((a + b).drop_first() =~= a.drop_first() + b);
        lemma_escaped_concat(a.drop_first(), b);
        assert(escape_one(a[0]) + (escaped_spec(a.drop_first()) + escaped_spec(b)) =~= (escape_one(
            a[0],
        ) + escaped_spec(a.drop_first())) + escaped_spec(b));
    }
}

proof fn lemma_escaped_push(a: Seq<u8>, x: u8)
    ensures
        escaped_spec(a.push(x)) == escaped_spec(a) + escape_one(x),
{
    assert(a.push(x) =~= a + seq![x]);
    lemma_escaped_concat(a, seq![x]);
    assert(seq![x].drop_first() =~= Seq::<u8>::empty());
    assert(escaped_spec(seq![x]) == escape_one(x) + escaped_spec(Seq::<u8>::empty()));
    assert(escape_one(x) + Seq::<u8>::empty() =~= escape_one(x));
}

/// Escape a binary payload for the wire.
pub fn escape_binary(data: &[u8]) -> (r: Vec<u8>)
    ensures
        r@ == escaped_spec(data@),
{
    let n: usize = data.len();
    let mut out: Vec<u8> = Vec::new();
    let mut i: usize = 0;
    while i < n
        invariant
            n == data@.len(),
            i <= n,
            out@ == escaped_spec(data@.take(i as int)),
        decreases n - i,
    {
        let b = data[i];
        proof {
            lemma_escaped_push(data@.take(i as int), b);
            assert(data@.take(i + 1 as int) =~= data@.take(i as int).push(b));
        }
        if b == PACKET_TERM_CHAR || b == PACKET_START_CHAR || b == ESCAPE_CHAR || b == RUNLEN_CHAR {
            out.push(ESCAPE_CHAR);
            out.push(b ^ 0x20);
        } else {
            out.push(b);
        }
        assert(out@ =~= escaped_spec(data@.take(i + 1 as int)));
        i = i + 1;
    }
    proof {
        assert(data@.take(n as int) =~= data@);
    }
    out
}

/// What remains of `data` once escapes and run-length markers have been
/// resolved, given the bytes `acc` already produced; `None` on a stray
/// escape, a marker with nothing before it, or an impossible count.
pub open spec fn unescape_rec(data: Seq<u8>, acc: Seq<u8>) -> Option<Seq<u8>>
    decreases data.len(),
{
    if data.len() == 0 {
        Some(acc)
    } else if data[0] == ESCAPE_CHAR {
        if data.len() >= 2 {
            unescape_rec(data.skip(2), acc.push((data[1] ^ 0x20) as u8))
        } else {
            None
        }
    } else if data[0] == RUNLEN_CHAR {
        if data.len() >= 2 && acc.len() > 0 && data[1] >= 29 {
            unescape_rec(
                data.skip(2),
                acc + Seq::new((data[1] - 29) as nat, |i: int| acc.last()),
            )
        } else {
            None
        }
    } else {
        unescape_rec(data.skip(1), acc.push(data[0]))
    }
}

/// A binary payload as received, unescaped and with runs expanded.
pub open spec fn unescaped_spec(data: Seq<u8>) -> Option<Seq<u8>> {
    unescape_rec(data, Seq::<u8>::empty())
}

/// Unescape a received binary payload, expanding run-length repeats.
pub fn unescape_binary(data: &[u8]) -> (r: Option<Vec<u8>>)
    ensures
        match r {
            Some(v) => unescaped_spec(data@) == Some(v@),
            None => unescaped_spec(data@) is None,
        },
{
    let n: usize = data.len();
    let mut out: Vec<u8> = Vec::new();
    let mut i: usize = 0;
    proof {
        assert(data@.skip(0) =~= data@);
    }
    while i < n
        invariant
            n == data@.len(),
            i <= n,
            unescaped_spec(data@) == unescape_rec(data@.skip(i as int), out@),
        decreases n - i,
    {
        let ghost pre = data@.skip(i as int);
        let b = data[i];
        assert(pre[0] == b);
        if b == ESCAPE_CHAR {
            if i + 1 >= n {
                proof {
                    assert(pre.len() < 2);
                }
                return None;
            }
            out.push(data[i + 1] ^ 0x20);
            proof {
                assert(pre.skip(2) =~= data@.skip(i + 2 as int));
                assert(pre[1] == data@[i + 1 as int]);
            }
            i = i + 2;
        } else if b == RUNLEN_CHAR {
            if i + 1 >= n || out.len() == 0 || data[i + 1] < 29 {
                return None;
            }
            let count: usize = (data[i + 1] - 29) as usize;
            let last: u8 = out[out.len() - 1];
            let ghost acc0 = out@;
            assert(last == acc0.last());
            let mut k: usize = 0;
            proof {
                assert(acc0 + Seq::new(0nat, |t: int| acc0.last()) =~= acc0);
            }
            while k < count
                invariant
                    k <= count,
                    acc0.len() > 0,
                    last == acc0.last(),
                    out@ == acc0 + Seq::new(k as nat, |t: int| acc0.last()),
                decreases count - k,
            {
                out.push(last);
                proof {
                    assert(acc0 + Seq::new((k + 1) as nat, |t: int| acc0.last()) =~= (acc0 + Seq::new(
                        k as nat,
                        |t: int| acc0.last(),
                    )).push(acc0.last()));
                }
                k = k + 1;
            }
            proof {
                assert(pre.skip(2) =~= data@.skip(i + 2 as int));
                assert(pre[1] == data@[i + 1 as int]);
            }
            i = i + 2;
        } else {
            out.push(b);
            proof {
                assert(pre.skip(1) =~= data@.skip(i + 1 as int));
            }
            i = i + 1;
        }
    }
    proof {
        assert(data@.skip(n as int) =~= Seq::<u8>::empty());
    }
    Some(out)
}

proof fn lemma_unescape_of_escaped(d: Seq<u8>, rest: Seq<u8>, acc: Seq<u8>)
    ensures
        unescape_rec(escaped_spec(d) + rest, acc) == unescape_rec(rest, acc + d),
    decreases d.len(),
{
    if d.len() == 0 {
        assert(escaped_spec(d) + rest =~= rest);
        assert(acc + d =~= acc);
    } else {
        let x = d[0];
        let tail = d.drop_first();
        assert(escaped_spec(d) == escape_one(x) + escaped_spec(tail));
        let whole = escaped_spec(d) + rest;
        if needs_escape(x) {
            assert(whole[0] == ESCAPE_CHAR);
            assert(whole[1] == (x ^ 0x20) as u8);
            assert(whole.len() >= 2);
            assert(whole.skip(2) =~= escaped_spec(tail) + rest);
            assert(((x ^ 0x20) as u8 ^ 0x20) == x) by (bit_vector);
            lemma_unescape_of_escaped(tail, rest, acc.push(x));
            assert(acc.push(x) + tail =~= acc + d);
        } else {
            assert(whole[0] == x);
            assert(x != ESCAPE_CHAR && x != RUNLEN_CHAR);
            assert(whole.skip(1) =~= escaped_spec(tail) + rest);
            lemma_unescape_of_escaped(tail, rest, acc.push(x));
            assert(acc.push(x) + tail =~= acc + d);
        }
    }
}

/// Escaping a payload and unescaping what was sent recovers the payload,
/// whatever bytes it held.
pub proof fn lemma_escape_unescape_roundtrip(data: Seq<u8>)
    ensures
        unescaped_spec(escaped_spec(data)) == Some(data),
{
    assert(escaped_spec(data) + Seq::<u8>::empty() =~= escaped_spec(data));
    lemma_unescape_of_escaped(data, Seq::<u8>::empty(), Seq::<u8>::empty());
    assert(Seq::<u8>::empty() + data =~= data);
}

} // verus!
