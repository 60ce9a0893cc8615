//! Thread identifiers as the debugger names them: a (pid, tid) pair with
//! two sentinel values, and the two wire spellings — bare `<tid>` or
//! `p<pid>.<tid>` once the multiprocess extension has been negotiated.

use crate::hex::{hex_digit_char, hex_digits_rec, hex_min2, is_hex_digit, push_hex_i32_min2, u32_of_i32};
use vstd::prelude::*;

verus! {

/// Descriptor for a task: a pid and a tid, each a signed 32-bit number.
#[derive(Copy, Clone, PartialEq, Eq, Structural, Debug)]
pub struct GdbThreadId {
    pub pid: i32,
    pub tid: i32,
}

impl GdbThreadId {
    pub fn new(pid: i32, tid: i32) -> (r: GdbThreadId)
        ensures
            r == (GdbThreadId { pid, tid }),
    {
        GdbThreadId { pid, tid }
    }

    /// The sentinel (0, 0): any thread will do.
    pub open spec fn any_spec() -> GdbThreadId {
        GdbThreadId { pid: 0, tid: 0 }
    }

    /// The sentinel (-1, -1): every thread at once.
    pub open spec fn all_spec() -> GdbThreadId {
        GdbThreadId { pid: -1i32, tid: -1i32 }
    }

    pub fn any() -> (r: GdbThreadId)
        ensures
            r == GdbThreadId::any_spec(),
    {
        GdbThreadId { pid: 0, tid: 0 }
    }

    pub fn all() -> (r: GdbThreadId)
        ensures
            r == GdbThreadId::all_spec(),
    {
        GdbThreadId { pid: -1, tid: -1 }
    }
}

impl Default for GdbThreadId {
    fn default() -> (r: Self)
        ensures
            r == GdbThreadId::all_spec(),
    {
        GdbThreadId { pid: -1, tid: -1 }
    }
}

/// How an outgoing packet names a thread: `p<pid>.<tid>` when the
/// multiprocess extension was negotiated, bare `<tid>` otherwise, each
/// number in two's-complement hex padded to two digits.
pub open spec fn thread_id_bytes(multiprocess: bool, t: GdbThreadId) -> Seq<u8> {
    if multiprocess {
        seq![112u8] + hex_min2(u32_of_i32(t.pid)) + seq![46u8] + hex_min2(u32_of_i32(t.tid))
    } else {
        hex_min2(u32_of_i32(t.tid))
    }
}

/// Append a thread id in the negotiated spelling.
pub fn push_thread_id(buf: &mut Vec<u8>, multiprocess: bool, t: GdbThreadId)
    ensures
        final(buf)@ == old(buf)@ + thread_id_bytes(multiprocess, t),
{
    if multiprocess {
        buf.push(112);
        push_hex_i32_min2(buf, t.pid);
        buf.push(46);
        push_hex_i32_min2(buf, t.tid);
        assert(buf@ =~= old(buf)@ + thread_id_bytes(multiprocess, t));
    } else {
        push_hex_i32_min2(buf, t.tid);
    }
}

proof fn lemma_hex_digits_rec_first(v: nat)
    requires
        v > 0,
    ensures
        hex_digits_rec(v).len() >= 1,
        is_hex_digit(hex_digits_rec(v)[0]),
    decreases v,
{
    if v / 16 > 0 {
        lemma_hex_digits_rec_first(v / 16);
        assert(hex_digits_rec(v)[0] == hex_digits_rec(v / 16)[0]);
    } else {
        assert(hex_digits_rec(v / 16) =~= Seq::<u8>::empty());
        assert(hex_digits_rec(v)[0] == hex_digit_char((v % 16) as u8));
        assert((v % 16) < 16);
    }
}

/// The `p` prefix appears on an outgoing thread id exactly when the
/// multiprocess extension was negotiated: without it the first byte is a
/// hex digit, and `p` is not one.
pub proof fn lemma_multiprocess_prefix(multiprocess: bool, t: GdbThreadId)
    ensures
        thread_id_bytes(multiprocess, t).len() > 0,
        multiprocess <==> thread_id_bytes(multiprocess, t)[0] == 112,
{
    if !multiprocess {
        let v = u32_of_i32(t.tid);
        if v >= 16 {
            lemma_hex_digits_rec_first(v);
        }
    }
}

} // verus!
