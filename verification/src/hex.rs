//! Lowercase hexadecimal as the wire encodes it: digit characters, two
//! digits per byte, and numbers of no fixed width.

use vstd::prelude::*;

verus! {

/// The wire character for the hex digit `v` (0..16): '0'..'9' then 'a'..'f'.
pub open spec fn hex_digit_char(v: u8) -> u8 {
    if v < 10 {
        (v + 48) as u8
    } else {
        (v + 87) as u8
    }
}

pub fn hex_digit(v: u8) -> (r: u8)
    requires
        v < 16,
    ensures
        r == hex_digit_char(v),
{
    if v < 10 {
        v + 48
    } else {
        v + 87
    }
}

/// The two digits of one byte, high digit first.
pub open spec fn hex2(b: u8) -> Seq<u8> {
    seq![hex_digit_char(b / 16), hex_digit_char(b % 16)]
}

/// A byte sequence encoded as two digits per byte, in order.
pub open spec fn hex_encoded(data: Seq<u8>) -> Seq<u8>
    decreases data.len(),
{
    if data.len() == 0 {
        Seq::<u8>::empty()
    } else {
        hex_encoded(data.drop_last()) + hex2(data.last())
    }
}

/// Append the two digits of `b` to `buf`.
pub fn push_hex2(buf: &mut Vec<u8>, b: u8)
    ensures
        final(buf)@ == old(buf)@ + hex2(b),
{
    buf.push(hex_digit(b / 16));
    buf.push(hex_digit(b % 16));
    assert(buf@ =~= old(buf)@ + hex2(b));
}

/// Append the hex encoding of `data` to `buf`.
pub fn push_hex_bytes(buf: &mut Vec<u8>, data: &[u8])
    ensures
        final(buf)@ == old(buf)@ + hex_encoded(data@),
{
    let n: usize = data.len();
    let mut i: usize = 0;
    while i < n
        invariant
            n == data@.len(),
            i <= n,
            buf@ == old(buf)@ + hex_encoded(data@.take(i as int)),
        decreases n - i,
    {
        push_hex2(buf, data[i]);
        proof {
            assert(data@.take(i + 1 as int).drop_last() =~= data@.take(i as int));
            assert(data@.take(i + 1 as int).last() == data@[i as int]);
        }
        i = i + 1;
    }
    proof {
        assert(data@.take(n as int) =~= data@);
    }
}

pub open spec fn is_hex_digit(c: u8) -> bool {
    (48 <= c && c <= 57) || (97 <= c && c <= 102) || (65 <= c && c <= 70)
}

/// The numeric value of a digit character; meaningful when `is_hex_digit(c)`.
pub open spec fn hex_val(c: u8) -> u8 {
    if 48 <= c && c <= 57 {
        (c - 48) as u8
    } else if 97 <= c && c <= 102 {
        (c - 87) as u8
    } else if 65 <= c && c <= 70 {
        (c - 55) as u8
    } else {
        0
    }
}

pub fn hex_digit_value(c: u8) -> (r: Option<u8>)
    ensures
        r is Some <==> is_hex_digit(c),
        r is Some ==> r->0 == hex_val(c) && r->0 < 16,
{
    if 48 <= c && c <= 57 {
        Some(c - 48)
    } else if 97 <= c && c <= 102 {
        Some(c - 87)
    } else if 65 <= c && c <= 70 {
        Some(c - 55)
    } else {
        None
    }
}

pub open spec fn all_hex_digits(s: Seq<u8>) -> bool {
    forall|i: int| 0 <= i < s.len() ==> is_hex_digit(s[i])
}

/// The number written by a digit string, most significant digit first.
pub open spec fn hex_value(s: Seq<u8>) -> nat
    decreases s.len(),
{
    if s.len() == 0 {
        0
    } else {
        (hex_value(s.drop_last()) * 16 + hex_val(s.last())) as nat
    }
}

/// A non-empty all-digit string whose value fits in 64 bits.
pub open spec fn valid_hex_u64(s: Seq<u8>) -> bool {
    s.len() >= 1 && all_hex_digits(s) && hex_value(s) <= u64::MAX
}

proof fn lemma_hex_value_take_step(s: Seq<u8>, i: int)
    requires
        0 <= i < s.len(),
    ensures
        hex_value(s.take(i + 1)) == hex_value(s.take(i)) * 16 + hex_val(s[i]),
{
    assert(s.take(i + 1).drop_last() =~= s.take(i));
    assert(s.take(i + 1).last() == s[i]);
}

proof fn lemma_hex_value_take_mono(s: Seq<u8>, i: int, j: int)
    requires
        0 <= i <= j <= s.len(),
    ensures
        hex_value(s.take(i)) <= hex_value(s.take(j)),
    decreases j - i,
{
    if i < j {
        lemma_hex_value_take_mono(s, i, j - 1);
        lemma_hex_value_take_step(s, j - 1);
    }
}

/// Parse an unsigned hex number of any width (the wire writes no `0x`).
pub fn parse_hex_u64(s: &[u8]) -> (r: Option<u64>)
    ensures
        r is Some <==> valid_hex_u64(s@),
        r is Some ==> r->0 == hex_value(s@),
{
    let n: usize = s.len();
    if n == 0 {
        return None;
    }
    let mut v: u64 = 0;
    let mut i: usize = 0;
    while i < n
        invariant
            n == s@.len(),
            0 <= i <= n,
            all_hex_digits(s@.take(i as int)),
            v == hex_value(s@.take(i as int)),
        decreases n - i,
    {
        let d = match hex_digit_value(s[i]) {
            Some(d) => d,
            None => {
                return None;
            },
        };
        if v >= 0x1000_0000_0000_0000 {
            proof {
                lemma_hex_value_take_step(s@, i as int);
                lemma_hex_value_take_mono(s@, i + 1 as int, n as int);
                assert(s@.take(n as int) =~= s@);
            }
            return None;
        }
        proof {
            lemma_hex_value_take_step(s@, i as int);
        }
        v = v * 16 + (d as u64);
        assert(all_hex_digits(s@.take(i + 1 as int)));
        i = i + 1;
    }
    proof {
        assert(s@.take(n as int) =~= s@);
    }
    Some(v)
}

/// An even-length all-digit string: the encoding of whole bytes.
pub open spec fn valid_hex_pairs(s: Seq<u8>) -> bool {
    s.len() % 2 == 0 && all_hex_digits(s)
}

/// The bytes written by an even digit string, two digits each.
pub open spec fn hex_pairs_value(s: Seq<u8>) -> Seq<u8>
    decreases s.len(),
{
    if s.len() < 2 {
        Seq::<u8>::empty()
    } else {
        hex_pairs_value(s.drop_last().drop_last()).push(
            (hex_val(s[s.len() - 2]) * 16 + hex_val(s[s.len() - 1])) as u8,
        )
    }
}

proof fn lemma_hex_pairs_take_step(s: Seq<u8>, i: int)
    requires
        0 <= i,
        i + 2 <= s.len(),
    ensures
        hex_pairs_value(s.take(i + 2)) == hex_pairs_value(s.take(i)).push(
            (hex_val(s[i]) * 16 + hex_val(s[i + 1])) as u8,
        ),
{
    assert(s.take(i + 2).drop_last().drop_last() =~= s.take(i));
    assert(s.take(i + 2)[i] == s[i]);
    assert(s.take(i + 2)[i + 1] == s[i + 1]);
}

/// Decode a string of digit pairs into bytes.
pub fn decode_hex_pairs(s: &[u8]) -> (r: Option<Vec<u8>>)
    ensures
        r is Some <==> valid_hex_pairs(s@),
        r is Some ==> r->0@ == hex_pairs_value(s@) && r->0@.len() == s@.len() / 2,
{
    let n: usize = s.len();
    if n % 2 != 0 {
        return None;
    }
    let mut out: Vec<u8> = Vec::new();
    let mut i: usize = 0;
    while i < n
        invariant
            n == s@.len(),
            n % 2 == 0,
            0 <= i <= n,
            i % 2 == 0,
            all_hex_digits(s@.take(i as int)),
            out@ == hex_pairs_value(s@.take(i as int)),
            out@.len() == i / 2,
        decreases n - i,
    {
        let hi = match hex_digit_value(s[i]) {
            Some(d) => d,
            None => {
                return None;
            },
        };
        let lo = match hex_digit_value(s[i + 1]) {
            Some(d) => d,
            None => {
                return None;
            },
        };
        proof {
            lemma_hex_pairs_take_step(s@, i as int);
        }
        out.push(hi * 16 + lo);
        assert(all_hex_digits(s@.take(i + 2 as int)));
        i = i + 2;
    }
    proof {
        assert(s@.take(n as int) =~= s@);
    }
    Some(out)
}

/// Every byte of `s` is below 128, so the string is plain ASCII text.
pub open spec fn all_ascii(s: Seq<u8>) -> bool {
    forall|i: int| 0 <= i < s.len() ==> s[i] < 128
}

/// Decode a hex-pair string known to carry ASCII text, as maintenance
/// commands are transported.  Inputs that decode to non-ASCII bytes are
/// ruled out by the caller.
pub fn decode_ascii_encoded_hex_str(encoded: &[u8]) -> (r: Vec<u8>)
    requires
        valid_hex_pairs(encoded@),
        all_ascii(hex_pairs_value(encoded@)),
    ensures
        r@ == hex_pairs_value(encoded@),
{
    let r = decode_hex_pairs(encoded);
    match r {
        Some(v) => v,
        None => unreached(),
    }
}

/// The digits of `v` written without leading zeros; empty for zero.
pub open spec fn hex_digits_rec(v: nat) -> Seq<u8>
    decreases v,
{
    if v == 0 {
        Seq::<u8>::empty()
    } else {
        hex_digits_rec(v / 16).push(hex_digit_char((v % 16) as u8))
    }
}

/// A number as the wire writes it: minimal digits, "0" for zero.
pub open spec fn hex_min1(v: nat) -> Seq<u8> {
    if v == 0 {
        seq![48u8]
    } else {
        hex_digits_rec(v)
    }
}

/// A number padded to at least two digits, as `{:02x}` writes it.
pub open spec fn hex_min2(v: nat) -> Seq<u8> {
    if v < 16 {
        seq![48u8, hex_digit_char(v as u8)]
    } else {
        hex_digits_rec(v)
    }
}

proof fn lemma_reverse_push(s: Seq<u8>, a: u8)
    ensures
        s.push(a).reverse() =~= seq![a] + s.reverse(),
{
}

/// Append the minimal digits of `v` (empty when `v == 0`).
fn push_hex_digits_rec(buf: &mut Vec<u8>, v: u64)
    ensures
        final(buf)@ == old(buf)@ + hex_digits_rec(v as nat),
{
    let mut tmp: Vec<u8> = Vec::new();
    let mut x: u64 = v;
    while x > 0
        invariant
            hex_digits_rec(v as nat) =~= hex_digits_rec(x as nat) + tmp@.reverse(),
        decreases x,
    {
        let d = hex_digit((x % 16) as u8);
        proof {
            lemma_reverse_push(tmp@, d);
            assert(hex_digits_rec(x as nat) =~= hex_digits_rec((x as nat) / 16) + seq![
                hex_digit_char((x % 16) as u8),
            ]);
        }
        tmp.push(d);
        x = x / 16;
    }
    let k: usize = tmp.len();
    let mut j: usize = 0;
    while j < k
        invariant
            k == tmp@.len(),
            0 <= j <= k,
            hex_digits_rec(v as nat) =~= tmp@.reverse(),
            buf@ == old(buf)@ + tmp@.reverse().take(j as int),
        decreases k - j,
    {
        buf.push(tmp[k - 1 - j]);
        proof {
            assert(tmp@.reverse().take(j + 1 as int) =~= tmp@.reverse().take(j as int).push(
                tmp@[k - 1 - j as int],
            ));
        }
        j = j + 1;
    }
    proof {
        assert(tmp@.reverse().take(k as int) =~= tmp@.reverse());
    }
}

/// Append `v` as `{:x}` writes it.
pub fn push_hex_min1(buf: &mut Vec<u8>, v: u64)
    ensures
        final(buf)@ == old(buf)@ + hex_min1(v as nat),
{
    if v == 0 {
        buf.push(48);
        assert(buf@ =~= old(buf)@ + hex_min1(v as nat));
    } else {
        push_hex_digits_rec(buf, v);
    }
}

/// Append `v` as `{:02x}` writes it.
pub fn push_hex_min2(buf: &mut Vec<u8>, v: u64)
    ensures
        final(buf)@ == old(buf)@ + hex_min2(v as nat),
{
    if v < 16 {
        buf.push(48);
        buf.push(hex_digit(v as u8));
        assert(buf@ =~= old(buf)@ + hex_min2(v as nat));
    } else {
        push_hex_digits_rec(buf, v);
    }
}

/// The unsigned 32-bit pattern that a signed value occupies: how the wire
/// writes negative process and thread numbers.
pub open spec fn u32_of_i32(v: i32) -> nat {
    if v >= 0 {
        v as nat
    } else {
        (v + 0x1_0000_0000) as nat
    }
}

/// Append a signed 32-bit value in two's complement, `{:02x}` style.
pub fn push_hex_i32_min2(buf: &mut Vec<u8>, v: i32)
    ensures
        final(buf)@ == old(buf)@ + hex_min2(u32_of_i32(v)),
{
    if v >= 0 {
        push_hex_min2(buf, v as u64);
    } else {
        let w: u64 = ((v as i64) + 0x1_0000_0000i64) as u64;
        push_hex_min2(buf, w);
    }
}

} // verus!
