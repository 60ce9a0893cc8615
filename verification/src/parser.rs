//! What the stub must do with one framed payload: answer it
//! internally, surface a typed request to the engine, switch a
//! negotiated mode, or declare the session violated.

use crate::fileflags::{gdb_open_flags_to_system_flags, check_gdb_open_flags, host_open_flags_of,
    valid_gdb_open_flags};
use crate::framing::{ascii_of, unescape_binary, unescaped_spec};
use crate::hex::{decode_hex_pairs, hex_pairs_value, hex_value, parse_hex_u64, valid_hex_pairs,
    valid_hex_u64};
use crate::registers::{GdbRegisterValue, GdbRegisterValueData};
use crate::replay_timeline::RunDirection;
use crate::request::{Cont, FileClose, FileOpen, FilePread, FileSetfs, GdbActionType,
    GdbContAction, GdbRequest, GdbRequestType, GdbRequestValue, GdbRestartType, Mem, Restart, Symbol, Tls, Watch,
    req_wf, DREQ_CONT, DREQ_DETACH, DREQ_FILE_CLOSE, DREQ_FILE_OPEN, DREQ_FILE_PREAD,
    DREQ_FILE_SETFS, DREQ_GET_AUXV, DREQ_GET_CURRENT_THREAD, DREQ_GET_EXEC_FILE,
    DREQ_GET_IS_THREAD_ALIVE, DREQ_GET_MEM, DREQ_GET_OFFSETS, DREQ_GET_REG, DREQ_GET_REGS,
    DREQ_GET_STOP_REASON, DREQ_GET_THREAD_EXTRA_INFO, DREQ_GET_THREAD_LIST, DREQ_INTERRUPT,
    DREQ_QSYMBOL, DREQ_RD_CMD, DREQ_READ_SIGINFO, DREQ_REMOVE_SW_BREAK, DREQ_RESTART,
    DREQ_SEARCH_MEM, DREQ_SET_CONTINUE_THREAD, DREQ_SET_MEM, DREQ_SET_QUERY_THREAD, DREQ_SET_REG,
    DREQ_SET_SW_BREAK, DREQ_TLS, DREQ_WRITE_SIGINFO};
use crate::thread_id::GdbThreadId;
use vstd::prelude::*;

verus! {

/// What a packet asks of the stub.
pub enum PacketAction {
    /// Answered on the spot with this reply payload; an empty payload
    /// tells the client the packet is unrecognized.
    Internal(Vec<u8>),
    /// `QStartNoAckMode`: reply OK, then stop acknowledging.
    InternalNoAckMode,
    /// `qSupported`: record whether the client offered the multiprocess
    /// extension, and reply with our own feature list.
    InternalQSupported(bool, Vec<u8>),
    /// The engine must act: this becomes the current request.
    Surface(GdbRequest),
    /// A malformed packet; the session cannot continue.
    Violation,
}

// ---------------------------------------------------------------------
// Decomposition helpers.

/// `s` falls apart at the first `sep` into `a` and `b`.
pub open spec fn split_first(s: Seq<u8>, sep: u8, a: Seq<u8>, b: Seq<u8>) -> bool {
    s == a + seq![sep] + b && !a.contains(sep)
}

/// Find the first occurrence of `b` in `s`.
pub fn find_byte(s: &[u8], sep: u8) -> (r: Option<usize>)
    ensures
        r matches Some(i) ==> i < s@.len() && s@[i as int] == sep && forall|j: int|
            0 <= j < i ==> s@[j] != sep,
        r is None ==> !s@.contains(sep),
{
    let n: usize = s.len();
    let mut i: usize = 0;
    while i < n
        invariant
            n == s@.len(),
            i <= n,
            forall|j: int| 0 <= j < i ==> s@[j] != sep,
        decreases n - i,
    {
        if s[i] == sep {
            return Some(i);
        }
        i = i + 1;
    }
    None
}

/// Split at the first `sep`; `None` when there is none.
pub fn split_at_byte<'a>(s: &'a [u8], sep: u8) -> (r: Option<(&'a [u8], &'a [u8])>)
    ensures
        r matches Some((a, b)) ==> split_first(s@, sep, a@, b@),
        r is None ==> !s@.contains(sep),
{
    let n: usize = s.len();
    match find_byte(s, sep) {
        None => None,
        Some(i) => {
            assert(i < n);
            let a = &s[0..i];
            let b = &s[i + 1..n];
            proof {
                assert(s@ =~= a@ + seq![sep] + b@);
                assert(forall|j: int| 0 <= j < a@.len() ==> a@[j] == s@[j]);
            }
            Some((a, b))
        },
    }
}

/// The pieces of `s` cut at every `sep`, given the piece `cur` being
/// read and the pieces `acc` already cut.  Cutting the empty string
/// yields one empty piece.
pub open spec fn split_rec(s: Seq<u8>, sep: u8, cur: Seq<u8>, acc: Seq<Seq<u8>>) -> Seq<Seq<u8>>
    decreases s.len(),
{
    if s.len() == 0 {
        acc.push(cur)
    } else if s[0] == sep {
        split_rec(s.skip(1), sep, Seq::<u8>::empty(), acc.push(cur))
    } else {
        split_rec(s.skip(1), sep, cur.push(s[0]), acc)
    }
}

/// The pieces of `s` cut at every `sep`.
pub open spec fn split_all(s: Seq<u8>, sep: u8) -> Seq<Seq<u8>> {
    split_rec(s, sep, Seq::<u8>::empty(), Seq::<Seq<u8>>::empty())
}

/// Cut `s` at every `sep`.
pub fn split_on_byte(s: &[u8], sep: u8) -> (r: Vec<Vec<u8>>)
    ensures
        r.deep_view() == split_all(s@, sep),
{
    let n: usize = s.len();
    let mut acc: Vec<Vec<u8>> = Vec::new();
    let mut cur: Vec<u8> = Vec::new();
    let mut i: usize = 0;
    proof {
        assert(s@.skip(0) =~= s@);
        assert(acc.deep_view() =~~= Seq::<Seq<u8>>::empty());
        assert(cur@ =~= Seq::<u8>::empty());
    }
    while i < n
        invariant
            n == s@.len(),
            i <= n,
            split_all(s@, sep) == split_rec(s@.skip(i as int), sep, cur@, acc.deep_view()),
        decreases n - i,
    {
        let ghost pre = s@.skip(i as int);
        assert(pre[0] == s@[i as int]);
        if s[i] == sep {
            let ghost acc_dv = acc.deep_view();
            let ghost cur_v = cur@;
            acc.push(cur);
            cur = Vec::new();
            proof {
                assert(acc.deep_view() =~~= acc_dv.push(cur_v));
                assert(cur@ =~= Seq::<u8>::empty());
            }
        } else {
            cur.push(s[i]);
        }
        proof {
            assert(pre.skip(1) =~= s@.skip(i + 1 as int));
        }
        i = i + 1;
    }
    proof {
        assert(s@.skip(n as int) =~= Seq::<u8>::empty());
    }
    let ghost acc_dv = acc.deep_view();
    let ghost cur_v = cur@;
    acc.push(cur);
    proof {
        assert(acc.deep_view() =~~= acc_dv.push(cur_v));
    }
    acc
}

// ---------------------------------------------------------------------
// Numbers and thread ids as packets write them.

/// A pid or tid on the wire: `-` and magnitude, or two's-complement hex.
pub open spec fn valid_tid_num(s: Seq<u8>) -> bool {
    if s.len() >= 1 && s[0] == 45 {  // '-'
        valid_hex_u64(s.skip(1)) && hex_value(s.skip(1)) <= 0x8000_0000
    } else {
        valid_hex_u64(s) && hex_value(s) <= 0xFFFF_FFFF
    }
}

/// The signed value such a string denotes.
pub open spec fn tid_num_value(s: Seq<u8>) -> int {
    if s.len() >= 1 && s[0] == 45 {
        -(hex_value(s.skip(1)) as int)
    } else if hex_value(s) < 0x8000_0000 {
        hex_value(s) as int
    } else {
        hex_value(s) - 0x1_0000_0000
    }
}

/// Parse one signed thread or process number.
pub fn parse_tid_num(s: &[u8]) -> (r: Option<i32>)
    ensures
        r is Some <==> valid_tid_num(s@),
        r matches Some(v) ==> v == tid_num_value(s@),
{
    if s.len() >= 1 && s[0] == 45 {
        let rest = &s[1..s.len()];
        proof {
            assert(rest@ =~= s@.skip(1));
        }
        match parse_hex_u64(rest) {
            Some(v) if v <= 0x8000_0000 => Some((-(v as i64)) as i32),
            _ => None,
        }
    } else {
        match parse_hex_u64(s) {
            Some(v) if v <= 0xFFFF_FFFF => {
                if v < 0x8000_0000 {
                    Some(v as i32)
                } else {
                    Some(((v as i64) - 0x1_0000_0000i64) as i32)
                }
            },
            _ => None,
        }
    }
}

/// The thread a bare number selects: 0 is "any", -1 is "all", anything
/// else a thread of the single pretended process.
pub open spec fn bare_tid_thread(v: int) -> GdbThreadId {
    if v == 0 {
        GdbThreadId::any_spec()
    } else if v == -1 {
        GdbThreadId::all_spec()
    } else {
        GdbThreadId { pid: -1i32, tid: v as i32 }
    }
}

/// A thread id as `H`, `T` and friends write it: `p<pid>.<tid>` or a
/// bare number.
pub open spec fn valid_thread_id_str(s: Seq<u8>) -> bool {
    if s.len() >= 1 && s[0] == 112 {  // 'p'
        exists|a: Seq<u8>, b: Seq<u8>|
            split_first(#[trigger] s.skip(1), 46, a, b) && valid_tid_num(a) && valid_tid_num(b)
    } else {
        valid_tid_num(s)
    }
}

/// `t` is the thread such a string selects.
pub open spec fn thread_id_str_value(s: Seq<u8>, t: GdbThreadId) -> bool {
    if s.len() >= 1 && s[0] == 112 {
        exists|a: Seq<u8>, b: Seq<u8>|
            split_first(#[trigger] s.skip(1), 46, a, b) && valid_tid_num(a) && valid_tid_num(b)
                && t.pid == tid_num_value(a) && t.tid == tid_num_value(b)
    } else {
        valid_tid_num(s) && t == bare_tid_thread(tid_num_value(s))
    }
}

/// Parse a thread id.
pub fn parse_thread_id(s: &[u8]) -> (r: Option<GdbThreadId>)
    ensures
        r is Some <==> valid_thread_id_str(s@),
        r matches Some(t) ==> thread_id_str_value(s@, t),
{
    if s.len() >= 1 && s[0] == 112 {
        let rest = &s[1..s.len()];
        proof {
            assert(rest@ =~= s@.skip(1));
        }
        match split_at_byte(rest, 46) {
            Some((a, b)) => {
                match (parse_tid_num(a), parse_tid_num(b)) {
                    (Some(pid), Some(tid)) => {
                        proof {
                            assert(split_first(s@.skip(1), 46, a@, b@));
                        }
                        Some(GdbThreadId { pid, tid })
                    },
                    _ => {
                        proof {
                            lemma_split_first_unique(rest@, 46);
                        }
                        None
                    },
                }
            },
            None => {
                proof {
                    if exists|a: Seq<u8>, b: Seq<u8>| split_first(#[trigger] s@.skip(1), 46, a, b) {
                        let (a, b) = choose|a: Seq<u8>, b: Seq<u8>|
                            split_first(#[trigger] s@.skip(1), 46, a, b);
                        assert(s@.skip(1).contains(46)) by {
                            assert(s@.skip(1)[a.len() as int] == 46);
                        }
                    }
                }
                None
            },
        }
    } else {
        match parse_tid_num(s) {
            Some(v) => Some(
                if v == 0 {
                    GdbThreadId::any()
                } else if v == -1 {
                    GdbThreadId::all()
                } else {
                    GdbThreadId { pid: -1, tid: v }
                },
            ),
            None => None,
        }
    }
}

/// Splitting at a byte's first occurrence is unambiguous.
proof fn lemma_split_first_unique(s: Seq<u8>, sep: u8)
    ensures
        forall|a1: Seq<u8>, b1: Seq<u8>, a2: Seq<u8>, b2: Seq<u8>|
            split_first(s, sep, a1, b1) && split_first(s, sep, a2, b2) ==> a1 == a2 && b1 == b2,
{
    assert forall|a1: Seq<u8>, b1: Seq<u8>, a2: Seq<u8>, b2: Seq<u8>|
        split_first(s, sep, a1, b1) && split_first(s, sep, a2, b2) implies a1 == a2 && b1 == b2 by {
        if a1.len() < a2.len() {
            assert(s[a1.len() as int] == sep);
            assert(s[a1.len() as int] == a2[a1.len() as int]);
            assert(a2.contains(sep));
        } else if a2.len() < a1.len() {
            assert(s[a2.len() as int] == sep);
            assert(s[a2.len() as int] == a1[a2.len() as int]);
            assert(a1.contains(sep));
        } else {
            assert(forall|j: int| 0 <= j < a1.len() ==> s[j] == a1[j]);
            assert(forall|j: int| 0 <= j < a2.len() ==> s[j] == a2[j]);
            assert(a1 =~= a2);
            assert(s.len() == (a1 + seq![sep] + b1).len());
            assert(s.len() == (a2 + seq![sep] + b2).len());
            assert(b1.len() == b2.len());
            assert forall|j: int| 0 <= j < b1.len() implies b1[j] == b2[j] by {
                assert(s[a1.len() + 1 + j] == b1[j]);
                assert(s[a2.len() + 1 + j] == b2[j]);
            }
            assert(b1 =~= b2);
        }
    }
}


// ---------------------------------------------------------------------
// Literal text helpers.

/// Build the byte vector of an ASCII string literal.
pub fn ascii_vec(s: &str) -> (r: Vec<u8>)
    requires
        vstd::string::is_ascii(s),
    ensures
        r@ == ascii_of(s@),
{
    let mut v: Vec<u8> = Vec::new();
    crate::framing::push_ascii(&mut v, s);
    assert(v@ =~= ascii_of(s@));
    v
}

/// Compare a received byte string against an ASCII literal.
pub fn equals_lit(s: &[u8], lit: &str) -> (r: bool)
    requires
        vstd::string::is_ascii(lit),
    ensures
        r == (s@ == ascii_of(lit@)),
{
    let b: &[u8] = lit.as_bytes();
    proof {
        vstd::string::is_ascii_spec_bytes(lit);
        assert(b@ =~= ascii_of(lit@));
    }
    let n: usize = s.len();
    if n != b.len() {
        assert(s@ != ascii_of(lit@));
        return false;
    }
    let mut i: usize = 0;
    while i < n
        invariant
            n == s@.len() && n == b@.len(),
            b@ == ascii_of(lit@),
            i <= n,
            forall|j: int| 0 <= j < i ==> s@[j] == b@[j],
        decreases n - i,
    {
        if s[i] != b[i] {
            proof {
                assert(s@[i as int] != b@[i as int]);
            }
            return false;
        }
        i = i + 1;
    }
    proof {
        assert(s@ =~= b@);
    }
    true
}

/// Does a received byte string start with an ASCII literal?
pub fn starts_with_lit(s: &[u8], pfx: &str) -> (r: bool)
    requires
        vstd::string::is_ascii(pfx),
    ensures
        r == ascii_of(pfx@).is_prefix_of(s@),
{
    let b: &[u8] = pfx.as_bytes();
    proof {
        vstd::string::is_ascii_spec_bytes(pfx);
        assert(b@ =~= ascii_of(pfx@));
    }
    let m: usize = b.len();
    if s.len() < m {
        assert(!b@.is_prefix_of(s@));
        return false;
    }
    let mut i: usize = 0;
    while i < m
        invariant
            m == b@.len(),
            b@ == ascii_of(pfx@),
            m <= s@.len(),
            i <= m,
            forall|j: int| 0 <= j < i ==> s@[j] == b@[j],
        decreases m - i,
    {
        if s[i] != b[i] {
            proof {
                assert(s@.subrange(0, m as int)[i as int] == s@[i as int]);
                assert(b@ != s@.subrange(0, m as int));
            }
            return false;
        }
        i = i + 1;
    }
    proof {
        assert(b@ =~= s@.subrange(0, m as int));
    }
    true
}

// ---------------------------------------------------------------------
// What each packet family demands, as predicates on the action taken.

/// The action is an on-the-spot reply with exactly these bytes.
pub open spec fn act_internal(r: PacketAction, reply: Seq<u8>) -> bool {
    r matches PacketAction::Internal(v) && v@ == reply
}

/// The action is the empty "unrecognized packet" reply.
pub open spec fn act_empty(r: PacketAction) -> bool {
    act_internal(r, Seq::<u8>::empty())
}

/// The action is a plain OK reply.
pub open spec fn act_ok(r: PacketAction) -> bool {
    act_internal(r, ascii_of("OK"@))
}

/// The action declares the packet malformed.
pub open spec fn act_violation(r: PacketAction) -> bool {
    r is Violation
}

/// Whatever is surfaced is a well-formed request with a real tag.
pub open spec fn surfaced_req_wf(r: PacketAction) -> bool {
    r matches PacketAction::Surface(req) ==> req_wf(req) && req.type_
        != crate::request::DREQ_NONE
}

/// The action surfaces a payload-free request of kind `t` at `target`.
pub open spec fn surf_plain(r: PacketAction, t: GdbRequestType, target: GdbThreadId) -> bool {
    r matches PacketAction::Surface(req) && req.type_ == t && req.target == target
        && !req.suppress_debugger_stop && req.value is GdbRequestNone
}

/// The action surfaces a memory-payload request.
pub open spec fn surf_mem(
    r: PacketAction,
    t: GdbRequestType,
    target: GdbThreadId,
    addr: int,
    len: int,
    data: Seq<u8>,
) -> bool {
    r matches PacketAction::Surface(req) && req.type_ == t && req.target == target
        && !req.suppress_debugger_stop && (req.value matches GdbRequestValue::GdbRequestMem(m)
        && m.addr == addr && m.len == len && m.data@ == data)
}

/// A resume action with these parts.
pub open spec fn mk_action(
    ty: GdbActionType,
    target: GdbThreadId,
    sig: Option<i32>,
) -> GdbContAction {
    GdbContAction { type_: ty, target, maybe_signal_to_deliver: sig }
}

/// The action surfaces a resume request with this direction and these
/// per-thread actions, targeting no thread in particular.
pub open spec fn surf_cont(r: PacketAction, dir: RunDirection, actions: Seq<GdbContAction>) -> bool {
    r matches PacketAction::Surface(req) && req.type_ == DREQ_CONT && req.target
        == GdbThreadId::any_spec() && !req.suppress_debugger_stop && (req.value matches
    GdbRequestValue::GdbRequestCont(c) && c.run_direction == dir && c.actions@ == actions)
}

/// A hex number that fits a usize.
pub open spec fn valid_hex_usize(s: Seq<u8>) -> bool {
    valid_hex_u64(s) && hex_value(s) <= usize::MAX
}

// ---------------------------------------------------------------------
// Per-family postconditions.

/// `b c` and `b s` resume backward from the selected resume thread;
/// anything else after `b` is unrecognized.
pub open spec fn post_bpacket(body: Seq<u8>, rt: GdbThreadId, r: PacketAction) -> bool {
    if body == ascii_of("c"@) {
        surf_cont(r, RunDirection::RunBackward, seq![mk_action(GdbActionType::ActionContinue, rt, None)])
    } else if body == ascii_of("s"@) {
        surf_cont(r, RunDirection::RunBackward, seq![mk_action(GdbActionType::ActionStep, rt, None)])
    } else {
        act_empty(r)
    }
}

/// Bare `c` or `s` resumes forward from the selected resume thread; the
/// historical form with an address is not served.
pub open spec fn post_legacy_plain(
    p: Seq<u8>,
    rt: GdbThreadId,
    ty: GdbActionType,
    r: PacketAction,
) -> bool {
    if p.len() == 1 {
        surf_cont(r, RunDirection::RunForward, seq![mk_action(ty, rt, None)])
    } else {
        act_empty(r)
    }
}

/// `C<sig>` or `S<sig>` resumes forward delivering a signal; the form
/// with an address is not served, and malformed signals are violations.
pub open spec fn post_legacy_sig(
    body: Seq<u8>,
    rt: GdbThreadId,
    ty: GdbActionType,
    r: PacketAction,
) -> bool {
    if body.contains(59) {
        act_empty(r)
    } else if valid_hex_u64(body) && hex_value(body) <= 0x7FFF_FFFF {
        surf_cont(
            r,
            RunDirection::RunForward,
            seq![mk_action(ty, rt, Some(hex_value(body) as i32))],
        )
    } else {
        act_violation(r)
    }
}

/// `Hc<id>` and `Hg<id>` ask the engine to select a thread.
pub open spec fn post_select_thread(body: Seq<u8>, r: PacketAction) -> bool {
    if body.len() >= 1 && (body[0] == 99 || body[0] == 103) && valid_thread_id_str(body.skip(1)) {
        r matches PacketAction::Surface(req) && req.type_ == (if body[0] == 99 {
            DREQ_SET_CONTINUE_THREAD
        } else {
            DREQ_SET_QUERY_THREAD
        }) && thread_id_str_value(body.skip(1), req.target) && !req.suppress_debugger_stop
            && req.value is GdbRequestNone
    } else {
        act_violation(r)
    }
}

/// `m<addr>,<len>` reads memory of the query thread.
pub open spec fn post_get_mem(body: Seq<u8>, qt: GdbThreadId, r: PacketAction) -> bool {
    if body.contains(44) {
        exists|a: Seq<u8>, l: Seq<u8>|
            #[trigger] split_first(body, 44, a, l) && (if valid_hex_usize(a) && valid_hex_usize(l) {
                surf_mem(
                    r,
                    DREQ_GET_MEM,
                    qt,
                    hex_value(a) as int,
                    hex_value(l) as int,
                    Seq::<u8>::empty(),
                )
            } else {
                act_violation(r)
            })
    } else {
        act_violation(r)
    }
}

/// `M<addr>,<len>:<hex>` writes memory; the data must decode and match
/// the announced length.
pub open spec fn post_set_mem_hex(body: Seq<u8>, qt: GdbThreadId, r: PacketAction) -> bool {
    if body.contains(44) {
        exists|a: Seq<u8>, rest: Seq<u8>|
            #[trigger] split_first(body, 44, a, rest) && (if rest.contains(58) {
                exists|l: Seq<u8>, dat: Seq<u8>|
                    #[trigger] split_first(rest, 58, l, dat) && (if valid_hex_usize(a)
                        && valid_hex_usize(l) && valid_hex_pairs(dat) && hex_value(l) == dat.len()
                        / 2 {
                        surf_mem(
                            r,
                            DREQ_SET_MEM,
                            qt,
                            hex_value(a) as int,
                            hex_value(l) as int,
                            hex_pairs_value(dat),
                        )
                    } else {
                        act_violation(r)
                    })
            } else {
                act_violation(r)
            })
    } else {
        act_violation(r)
    }
}

/// `X<addr>,<len>:<binary>` writes memory from escaped binary data.
pub open spec fn post_set_mem_binary(body: Seq<u8>, qt: GdbThreadId, r: PacketAction) -> bool {
    if body.contains(44) {
        exists|a: Seq<u8>, rest: Seq<u8>|
            #[trigger] split_first(body, 44, a, rest) && (if rest.contains(58) {
                exists|l: Seq<u8>, dat: Seq<u8>|
                    #[trigger] split_first(rest, 58, l, dat) && (if valid_hex_usize(a)
                        && valid_hex_usize(l) && (unescaped_spec(dat) matches Some(d) && d.len()
                        == hex_value(l)) {
                        surf_mem(
                            r,
                            DREQ_SET_MEM,
                            qt,
                            hex_value(a) as int,
                            hex_value(l) as int,
                            unescaped_spec(dat)->Some_0,
                        )
                    } else {
                        act_violation(r)
                    })
            } else {
                act_violation(r)
            })
    } else {
        act_violation(r)
    }
}

/// `p<index>` reads one register of the query thread.
pub open spec fn post_get_reg(body: Seq<u8>, qt: GdbThreadId, r: PacketAction) -> bool {
    if valid_hex_u64(body) && hex_value(body) <= u32::MAX {
        r matches PacketAction::Surface(req) && req.type_ == DREQ_GET_REG && req.target == qt
            && !req.suppress_debugger_stop && (req.value matches
        GdbRequestValue::GdbRequestRegisterValue(rv) && rv.name == hex_value(body) && !rv.defined
            && rv.size == 0)
    } else {
        act_violation(r)
    }
}

/// `P<index>=<hex>` writes one register of the query thread.
pub open spec fn post_set_reg(body: Seq<u8>, qt: GdbThreadId, r: PacketAction) -> bool {
    if body.contains(61) {
        exists|idx: Seq<u8>, dat: Seq<u8>|
            #[trigger] split_first(body, 61, idx, dat) && (if valid_hex_u64(idx) && hex_value(idx)
                <= u32::MAX && valid_hex_pairs(dat) && dat.len() / 2
                <= crate::registers::MAX_REG_SIZE_BYTES {
                r matches PacketAction::Surface(req) && req.type_ == DREQ_SET_REG && req.target
                    == qt && !req.suppress_debugger_stop && (req.value matches
                GdbRequestValue::GdbRequestRegisterValue(rv) && rv.name == hex_value(idx)
                    && rv.defined && rv.size == dat.len() / 2 && (rv.value matches
                GdbRegisterValueData::Value(v) && v@ == hex_pairs_value(dat)))
            } else {
                act_violation(r)
            })
    } else {
        act_violation(r)
    }
}

/// `R<param>` restarts the replay from the previous point.
pub open spec fn post_restart(body: Seq<u8>, r: PacketAction) -> bool {
    if valid_hex_u64(body) && hex_value(body) <= 0x7FFF_FFFF {
        r matches PacketAction::Surface(req) && req.type_ == DREQ_RESTART && req.target
            == GdbThreadId::any_spec() && !req.suppress_debugger_stop && (req.value matches
        GdbRequestValue::GdbRequestRestart(p) && p.param == hex_value(body) && p.param_str@.len()
            == 0 && p.type_ == GdbRestartType::RestartFromPrevious)
    } else {
        act_violation(r)
    }
}

/// `T<id>` asks whether a thread is alive.
pub open spec fn post_thread_alive(body: Seq<u8>, r: PacketAction) -> bool {
    if valid_thread_id_str(body) {
        r matches PacketAction::Surface(req) && req.type_ == DREQ_GET_IS_THREAD_ALIVE
            && thread_id_str_value(body, req.target) && !req.suppress_debugger_stop
            && req.value is GdbRequestNone
    } else {
        act_violation(r)
    }
}


// ---------------------------------------------------------------------
// Sub-parsers for the simple families.

/// An unrecognized packet's reply.
fn act_empty_reply() -> (r: PacketAction)
    ensures
        act_empty(r),
{
    PacketAction::Internal(Vec::new())
}

/// A payload-free request.
fn surface_plain(t: GdbRequestType, target: GdbThreadId) -> (r: PacketAction)
    requires
        t != crate::request::DREQ_NONE,
        !crate::request::is_mem_kind(t),
        !crate::request::is_reg_kind(t),
        !crate::request::is_watch_kind(t),
        t != DREQ_CONT && t != DREQ_RESTART && t != DREQ_RD_CMD && t != DREQ_TLS && t
            != DREQ_QSYMBOL && t != DREQ_FILE_SETFS && t != DREQ_FILE_OPEN && t != DREQ_FILE_PREAD
            && t != DREQ_FILE_CLOSE,
    ensures
        surf_plain(r, t, target),
        surfaced_req_wf(r),
{
    PacketAction::Surface(
        GdbRequest {
            type_: t,
            value: GdbRequestValue::GdbRequestNone,
            target,
            suppress_debugger_stop: false,
        },
    )
}

/// A single-action resume request.
fn surface_cont(
    dir: RunDirection,
    ty: GdbActionType,
    target: GdbThreadId,
    sig: Option<i32>,
) -> (r: PacketAction)
    ensures
        surf_cont(r, dir, seq![mk_action(ty, target, sig)]),
        surfaced_req_wf(r),
{
    let mut actions: Vec<GdbContAction> = Vec::new();
    actions.push(GdbContAction { type_: ty, target, maybe_signal_to_deliver: sig });
    assert(actions@ =~= seq![mk_action(ty, target, sig)]);
    PacketAction::Surface(
        GdbRequest {
            type_: DREQ_CONT,
            value: GdbRequestValue::GdbRequestCont(
                Cont { run_direction: dir, actions },
            ),
            target: GdbThreadId::any(),
            suppress_debugger_stop: false,
        },
    )
}

/// `b c` / `b s`: resume backward.
fn parse_bpacket(body: &[u8], rt: GdbThreadId) -> (r: PacketAction)
    ensures
        post_bpacket(body@, rt, r),
        surfaced_req_wf(r),
{
    proof {
        reveal_strlit("c");
        reveal_strlit("s");
    }
    if equals_lit(body, "c") {
        surface_cont(RunDirection::RunBackward, GdbActionType::ActionContinue, rt, None)
    } else if equals_lit(body, "s") {
        surface_cont(RunDirection::RunBackward, GdbActionType::ActionStep, rt, None)
    } else {
        act_empty_reply()
    }
}

/// `C<sig>` / `S<sig>`: resume forward delivering a signal.
fn parse_legacy_sig(body: &[u8], rt: GdbThreadId, ty: GdbActionType) -> (r: PacketAction)
    ensures
        post_legacy_sig(body@, rt, ty, r),
        surfaced_req_wf(r),
{
    match find_byte(body, 59) {
        Some(_) => {
            proof {
                assert(body@.contains(59));
            }
            act_empty_reply()
        },
        None => {
            match parse_hex_u64(body) {
                Some(v) if v <= 0x7FFF_FFFF => surface_cont(
                    RunDirection::RunForward,
                    ty,
                    rt,
                    Some(v as i32),
                ),
                _ => PacketAction::Violation,
            }
        },
    }
}

/// `Hc<id>` / `Hg<id>`: select a thread, subject to the engine's veto.
fn parse_select_thread(body: &[u8]) -> (r: PacketAction)
    ensures
        post_select_thread(body@, r),
        surfaced_req_wf(r),
{
    if body.len() >= 1 && (body[0] == 99 || body[0] == 103) {
        let op = body[0];
        let rest = &body[1..body.len()];
        proof {
            assert(rest@ =~= body@.skip(1));
        }
        match parse_thread_id(rest) {
            Some(t) => {
                let ty: GdbRequestType = if op == 99 {
                    DREQ_SET_CONTINUE_THREAD
                } else {
                    DREQ_SET_QUERY_THREAD
                };
                surface_plain(ty, t)
            },
            None => PacketAction::Violation,
        }
    } else {
        PacketAction::Violation
    }
}

/// `m<addr>,<len>`: read memory.
fn parse_get_mem(body: &[u8], qt: GdbThreadId) -> (r: PacketAction)
    ensures
        post_get_mem(body@, qt, r),
        surfaced_req_wf(r),
{
    match split_at_byte(body, 44) {
        None => PacketAction::Violation,
        Some((a, l)) => {
            proof {
                assert(body@.contains(44)) by {
                    assert(body@[a@.len() as int] == 44);
                }
            }
            let av = parse_hex_usize(a);
            let lv = parse_hex_usize(l);
            match (av, lv) {
                (Some(addr), Some(len)) => {
                    PacketAction::Surface(
                        GdbRequest {
                            type_: DREQ_GET_MEM,
                            value: GdbRequestValue::GdbRequestMem(
                                Mem { addr, len, data: Vec::new() },
                            ),
                            target: qt,
                            suppress_debugger_stop: false,
                        },
                    )
                },
                _ => PacketAction::Violation,
            }
        },
    }
}

/// Parse a hex number that must fit a `usize`.
pub fn parse_hex_usize(s: &[u8]) -> (r: Option<usize>)
    ensures
        r is Some <==> valid_hex_usize(s@),
        r matches Some(v) ==> v == hex_value(s@),
{
    match parse_hex_u64(s) {
        Some(v) => {
            if v <= usize::MAX as u64 {
                Some(v as usize)
            } else {
                None
            }
        },
        None => None,
    }
}

/// `M<addr>,<len>:<hex>`: write memory from hex data.
fn parse_set_mem_hex(body: &[u8], qt: GdbThreadId) -> (r: PacketAction)
    ensures
        post_set_mem_hex(body@, qt, r),
        surfaced_req_wf(r),
{
    match split_at_byte(body, 44) {
        None => PacketAction::Violation,
        Some((a, rest)) => {
            proof {
                assert(body@.contains(44)) by {
                    assert(body@[a@.len() as int] == 44);
                }
            }
            match split_at_byte(rest, 58) {
                None => PacketAction::Violation,
                Some((l, dat)) => {
                    proof {
                        assert(rest@.contains(58)) by {
                            assert(rest@[l@.len() as int] == 58);
                        }
                    }
                    let av = parse_hex_usize(a);
                    let lv = parse_hex_usize(l);
                    let dv = decode_hex_pairs(dat);
                    match (av, lv, dv) {
                        (Some(addr), Some(len), Some(data)) => {
                            if data.len() == len {
                                PacketAction::Surface(
                                    GdbRequest {
                                        type_: DREQ_SET_MEM,
                                        value: GdbRequestValue::GdbRequestMem(
                                            Mem { addr, len, data },
                                        ),
                                        target: qt,
                                        suppress_debugger_stop: false,
                                    },
                                )
                            } else {
                                PacketAction::Violation
                            }
                        },
                        _ => PacketAction::Violation,
                    }
                },
            }
        },
    }
}

/// `X<addr>,<len>:<binary>`: write memory from escaped binary data.
fn parse_set_mem_binary(body: &[u8], qt: GdbThreadId) -> (r: PacketAction)
    ensures
        post_set_mem_binary(body@, qt, r),
        surfaced_req_wf(r),
{
    match split_at_byte(body, 44) {
        None => PacketAction::Violation,
        Some((a, rest)) => {
            proof {
                assert(body@.contains(44)) by {
                    assert(body@[a@.len() as int] == 44);
                }
            }
            match split_at_byte(rest, 58) {
                None => PacketAction::Violation,
                Some((l, dat)) => {
                    proof {
                        assert(rest@.contains(58)) by {
                            assert(rest@[l@.len() as int] == 58);
                        }
                    }
                    let av = parse_hex_usize(a);
                    let lv = parse_hex_usize(l);
                    let dv = unescape_binary(dat);
                    match (av, lv, dv) {
                        (Some(addr), Some(len), Some(data)) => {
                            if data.len() == len {
                                PacketAction::Surface(
                                    GdbRequest {
                                        type_: DREQ_SET_MEM,
                                        value: GdbRequestValue::GdbRequestMem(
                                            Mem { addr, len, data },
                                        ),
                                        target: qt,
                                        suppress_debugger_stop: false,
                                    },
                                )
                            } else {
                                PacketAction::Violation
                            }
                        },
                        _ => PacketAction::Violation,
                    }
                },
            }
        },
    }
}

/// `p<index>`: read one register.
fn parse_get_reg(body: &[u8], qt: GdbThreadId) -> (r: PacketAction)
    ensures
        post_get_reg(body@, qt, r),
        surfaced_req_wf(r),
{
    match parse_hex_u64(body) {
        Some(v) if v <= u32::MAX as u64 => {
            PacketAction::Surface(
                GdbRequest {
                    type_: DREQ_GET_REG,
                    value: GdbRequestValue::GdbRequestRegisterValue(
                        GdbRegisterValue {
                            name: v as u32,
                            value: GdbRegisterValueData::Value8(0),
                            defined: false,
                            size: 0,
                        },
                    ),
                    target: qt,
                    suppress_debugger_stop: false,
                },
            )
        },
        _ => PacketAction::Violation,
    }
}

/// `P<index>=<hex>`: write one register.
fn parse_set_reg(body: &[u8], qt: GdbThreadId) -> (r: PacketAction)
    ensures
        post_set_reg(body@, qt, r),
        surfaced_req_wf(r),
{
    match split_at_byte(body, 61) {
        None => PacketAction::Violation,
        Some((idx, dat)) => {
            proof {
                assert(body@.contains(61)) by {
                    assert(body@[idx@.len() as int] == 61);
                }
            }
            let iv = parse_hex_u64(idx);
            let dv = decode_hex_pairs(dat);
            match (iv, dv) {
                (Some(i), Some(data)) if i <= u32::MAX as u64 && data.len() <= 256 => {
                    let size = data.len();
                    PacketAction::Surface(
                        GdbRequest {
                            type_: DREQ_SET_REG,
                            value: GdbRequestValue::GdbRequestRegisterValue(
                                GdbRegisterValue {
                                    name: i as u32,
                                    value: GdbRegisterValueData::Value(data),
                                    defined: true,
                                    size,
                                },
                            ),
                            target: qt,
                            suppress_debugger_stop: false,
                        },
                    )
                },
                _ => PacketAction::Violation,
            }
        },
    }
}

/// `R<param>`: restart the replay.
fn parse_restart(body: &[u8]) -> (r: PacketAction)
    ensures
        post_restart(body@, r),
        surfaced_req_wf(r),
{
    match parse_hex_u64(body) {
        Some(v) if v <= 0x7FFF_FFFF => {
            PacketAction::Surface(
                GdbRequest {
                    type_: DREQ_RESTART,
                    value: GdbRequestValue::GdbRequestRestart(
                        Restart {
                            param: v as i32,
                            param_str: Vec::new(),
                            type_: GdbRestartType::RestartFromPrevious,
                        },
                    ),
                    target: GdbThreadId::any(),
                    suppress_debugger_stop: false,
                },
            )
        },
        _ => PacketAction::Violation,
    }
}

/// `T<id>`: is the thread alive?
fn parse_thread_alive(body: &[u8]) -> (r: PacketAction)
    ensures
        post_thread_alive(body@, r),
        surfaced_req_wf(r),
{
    match parse_thread_id(body) {
        Some(t) => surface_plain(DREQ_GET_IS_THREAD_ALIVE, t),
        None => PacketAction::Violation,
    }
}


// ---------------------------------------------------------------------
// Watchpoint packets.

/// The request kind a `z`/`Z` packet of watch type `k` selects.
pub open spec fn watch_type(set: bool, k: int) -> GdbRequestType {
    ((if set {
        DREQ_SET_SW_BREAK as int
    } else {
        DREQ_REMOVE_SW_BREAK as int
    }) + k) as GdbRequestType
}

pub open spec fn pieces_all_hex_pairs(ps: Seq<Seq<u8>>) -> bool {
    forall|i: int| 0 <= i < ps.len() ==> #[trigger] valid_hex_pairs(ps[i])
}

/// The decoded condition list of a watchpoint packet.
pub open spec fn cond_list_value(cs: Seq<u8>) -> Seq<Seq<u8>> {
    split_all(cs, 59).map_values(|p: Seq<u8>| hex_pairs_value(p))
}

/// The fields of a watchpoint packet once cut apart: watch type,
/// address, width, and the conditions (present only behind a `;`).
pub open spec fn watch_fields_ok(
    ks: Seq<u8>,
    addrs: Seq<u8>,
    lens: Seq<u8>,
    cs: Seq<u8>,
    has_conds: bool,
    set: bool,
    r: PacketAction,
) -> bool {
    if valid_hex_u64(ks) && hex_value(ks) <= 4 && valid_hex_usize(addrs) && valid_hex_u64(lens)
        && hex_value(lens) <= 0x7FFF_FFFF && (!has_conds || pieces_all_hex_pairs(
        split_all(cs, 59),
    )) {
        r matches PacketAction::Surface(req) && req.type_ == watch_type(set, hex_value(ks) as int)
            && req.target == GdbThreadId::any_spec() && !req.suppress_debugger_stop
            && (req.value matches GdbRequestValue::GdbRequestWatch(w) && w.addr == hex_value(addrs)
            && w.kind == hex_value(lens) && w.conditions.deep_view() == (if has_conds {
            cond_list_value(cs)
        } else {
            Seq::<Seq<u8>>::empty()
        }))
    } else {
        act_violation(r)
    }
}

/// `z<type>,<addr>,<width>[;<conds>]` and its `Z` counterpart.
pub open spec fn post_watch(body: Seq<u8>, set: bool, r: PacketAction) -> bool {
    if body.contains(44) {
        exists|ks: Seq<u8>, rest: Seq<u8>|
            #[trigger] split_first(body, 44, ks, rest) && (if rest.contains(44) {
                exists|addrs: Seq<u8>, rest2: Seq<u8>|
                    #[trigger] split_first(rest, 44, addrs, rest2) && (if rest2.contains(59) {
                        exists|lens: Seq<u8>, cs: Seq<u8>|
                            #[trigger] split_first(rest2, 59, lens, cs) && watch_fields_ok(
                                ks,
                                addrs,
                                lens,
                                cs,
                                true,
                                set,
                                r,
                            )
                    } else {
                        watch_fields_ok(ks, addrs, rest2, Seq::<u8>::empty(), false, set, r)
                    })
            } else {
                act_violation(r)
            })
    } else {
        act_violation(r)
    }
}

// ---------------------------------------------------------------------
// The `q` family.

/// The feature token by which a client announces the multiprocess
/// extension.
pub open spec fn mp_token() -> Seq<u8> {
    ascii_of("multiprocess+"@)
}

/// `tok` stands at position `i` of the feature list `s`, bounded by
/// `;` or the ends of the list.
pub open spec fn feature_match_at(s: Seq<u8>, tok: Seq<u8>, i: int) -> bool {
    0 <= i && i + tok.len() <= s.len() && s.subrange(i, i + tok.len()) == tok && (i == 0 || s[i - 1]
        == 59) && (i + tok.len() == s.len() || s[i + tok.len()] == 59)
}

/// The feature list `s` contains the token `tok`.
pub open spec fn has_feature_token(s: Seq<u8>, tok: Seq<u8>) -> bool {
    exists|i: int| #[trigger] feature_match_at(s, tok, i)
}

/// The features the stub advertises; reverse execution only when the
/// engine allows it.
pub open spec fn qsupported_reply(reverse_ok: bool) -> Seq<u8> {
    ascii_of(
        "PacketSize=1000;QStartNoAckMode+;multiprocess+;vContSupported+;qXfer:features:read+;qXfer:auxv:read+;qXfer:exec-file:read+;qXfer:siginfo:read+;qXfer:siginfo:write+"@,
    ) + (if reverse_ok {
        ascii_of(";ReverseContinue+;ReverseStep+"@)
    } else {
        Seq::<u8>::empty()
    })
}

/// The action records the client's multiprocess offer and replies with
/// these bytes.
pub open spec fn act_qsupported(r: PacketAction, mp: bool, reply: Seq<u8>) -> bool {
    r matches PacketAction::InternalQSupported(m, v) && m == mp && v@ == reply
}

/// `qThreadExtraInfo,<id>`.
pub open spec fn post_extra_info(tidpart: Seq<u8>, r: PacketAction) -> bool {
    if valid_thread_id_str(tidpart) {
        r matches PacketAction::Surface(req) && req.type_ == DREQ_GET_THREAD_EXTRA_INFO
            && thread_id_str_value(tidpart, req.target) && !req.suppress_debugger_stop
            && req.value is GdbRequestNone
    } else {
        act_violation(r)
    }
}

/// `qSymbol:<addr>:<hex-name>`: the client answers a symbol lookup, or
/// offers to serve lookups when both parts are empty.
pub open spec fn post_symbol(sympart: Seq<u8>, r: PacketAction) -> bool {
    if sympart.contains(58) {
        exists|ad: Seq<u8>, nm: Seq<u8>|
            #[trigger] split_first(sympart, 58, ad, nm) && (if (ad.len() == 0 || valid_hex_usize(
                ad,
            )) && valid_hex_pairs(nm) {
                r matches PacketAction::Surface(req) && req.type_ == DREQ_QSYMBOL && req.target
                    == GdbThreadId::any_spec() && !req.suppress_debugger_stop
                    && (req.value matches GdbRequestValue::GdbRequestSymbol(sym)
                    && sym.has_address == (ad.len() > 0) && sym.address == (if ad.len() > 0 {
                    hex_value(ad) as int
                } else {
                    0
                }) && sym.name@ == hex_pairs_value(nm))
            } else {
                act_violation(r)
            })
    } else {
        act_violation(r)
    }
}

/// `qRcmd,<hex>`: a maintenance command, transported as hex text.
pub open spec fn post_rcmd(cmd: Seq<u8>, r: PacketAction) -> bool {
    if valid_hex_pairs(cmd) && crate::hex::all_ascii(hex_pairs_value(cmd)) {
        r matches PacketAction::Surface(req) && req.type_ == DREQ_RD_CMD && req.target
            == GdbThreadId::any_spec() && !req.suppress_debugger_stop && (req.value matches
        GdbRequestValue::GdbRequestText(txt) && txt@ == hex_pairs_value(cmd))
    } else {
        act_violation(r)
    }
}

/// `qGetTLSAddr:<id>,<offset>,<load-module>`.
pub open spec fn post_tls(rest: Seq<u8>, r: PacketAction) -> bool {
    if rest.contains(44) {
        exists|tid: Seq<u8>, rest2: Seq<u8>|
            #[trigger] split_first(rest, 44, tid, rest2) && (if rest2.contains(44) {
                exists|off: Seq<u8>, lm: Seq<u8>|
                    #[trigger] split_first(rest2, 44, off, lm) && (if valid_thread_id_str(tid)
                        && valid_hex_usize(off) && valid_hex_usize(lm) {
                        r matches PacketAction::Surface(req) && req.type_ == DREQ_TLS
                            && thread_id_str_value(tid, req.target) && !req.suppress_debugger_stop
                            && (req.value matches GdbRequestValue::GdbRequestTls(tls)
                            && tls.offset == hex_value(off) && tls.load_module == hex_value(lm))
                    } else {
                        act_violation(r)
                    })
            } else {
                act_violation(r)
            })
    } else {
        act_violation(r)
    }
}

/// `qSearch:memory:<addr>;<len>;<pattern>` with a binary pattern.
pub open spec fn post_search(rest: Seq<u8>, qt: GdbThreadId, r: PacketAction) -> bool {
    if rest.contains(59) {
        exists|ad: Seq<u8>, rest2: Seq<u8>|
            #[trigger] split_first(rest, 59, ad, rest2) && (if rest2.contains(59) {
                exists|ln: Seq<u8>, pat: Seq<u8>|
                    #[trigger] split_first(rest2, 59, ln, pat) && (if valid_hex_usize(ad)
                        && valid_hex_usize(ln) && unescaped_spec(pat) is Some {
                        surf_mem(
                            r,
                            DREQ_SEARCH_MEM,
                            qt,
                            hex_value(ad) as int,
                            hex_value(ln) as int,
                            unescaped_spec(pat)->Some_0,
                        )
                    } else {
                        act_violation(r)
                    })
            } else {
                act_violation(r)
            })
    } else {
        act_violation(r)
    }
}

/// A `qXfer:<object>:read` request: `<annex>:<offset>,<length>` with an
/// empty annex; the engine supplies the object, the stub slices it.
pub open spec fn post_xfer_read(
    s: Seq<u8>,
    t: GdbRequestType,
    qt: GdbThreadId,
    r: PacketAction,
) -> bool {
    if s.contains(58) {
        exists|annex: Seq<u8>, ol: Seq<u8>|
            #[trigger] split_first(s, 58, annex, ol) && (if annex.len() == 0 && ol.contains(44) {
                exists|off: Seq<u8>, ln: Seq<u8>|
                    #[trigger] split_first(ol, 44, off, ln) && (if valid_hex_usize(off)
                        && valid_hex_usize(ln) {
                        surf_mem(
                            r,
                            t,
                            qt,
                            hex_value(off) as int,
                            hex_value(ln) as int,
                            Seq::<u8>::empty(),
                        )
                    } else {
                        act_violation(r)
                    })
            } else {
                act_violation(r)
            })
    } else {
        act_violation(r)
    }
}

/// `qXfer:exec-file:read:<annex>:<offset>,<length>`: the annex, when
/// present, names the process asked about.
pub open spec fn post_exec_file(s: Seq<u8>, qt: GdbThreadId, r: PacketAction) -> bool {
    if s.contains(58) {
        exists|annex: Seq<u8>, ol: Seq<u8>|
            #[trigger] split_first(s, 58, annex, ol) && (if (annex.len() == 0 || (valid_hex_u64(
                annex,
            ) && hex_value(annex) <= 0x7FFF_FFFF)) && ol.contains(44) {
                exists|off: Seq<u8>, ln: Seq<u8>|
                    #[trigger] split_first(ol, 44, off, ln) && (if valid_hex_usize(off)
                        && valid_hex_usize(ln) {
                        surf_mem(
                            r,
                            DREQ_GET_EXEC_FILE,
                            if annex.len() == 0 {
                                qt
                            } else {
                                GdbThreadId {
                                    pid: hex_value(annex) as i32,
                                    tid: hex_value(annex) as i32,
                                }
                            },
                            hex_value(off) as int,
                            hex_value(ln) as int,
                            Seq::<u8>::empty(),
                        )
                    } else {
                        act_violation(r)
                    })
            } else {
                act_violation(r)
            })
    } else {
        act_violation(r)
    }
}

/// `qXfer:siginfo:write:<annex>:<offset>:<binary>`.
pub open spec fn post_siginfo_write(s: Seq<u8>, qt: GdbThreadId, r: PacketAction) -> bool {
    if s.contains(58) {
        exists|annex: Seq<u8>, rest2: Seq<u8>|
            #[trigger] split_first(s, 58, annex, rest2) && (if annex.len() == 0 && rest2.contains(
                58,
            ) {
                exists|off: Seq<u8>, dat: Seq<u8>|
                    #[trigger] split_first(rest2, 58, off, dat) && (if valid_hex_usize(off)
                        && (unescaped_spec(dat) matches Some(d) && d.len() <= usize::MAX) {
                        surf_mem(
                            r,
                            DREQ_WRITE_SIGINFO,
                            qt,
                            hex_value(off) as int,
                            unescaped_spec(dat)->Some_0.len() as int,
                            unescaped_spec(dat)->Some_0,
                        )
                    } else {
                        act_violation(r)
                    })
            } else {
                act_violation(r)
            })
    } else {
        act_violation(r)
    }
}

/// The `qXfer` sub-families; objects not served are unrecognized.
pub open spec fn post_xfer(rest: Seq<u8>, qt: GdbThreadId, r: PacketAction) -> bool {
    if ascii_of("auxv:read:"@).is_prefix_of(rest) {
        post_xfer_read(rest.skip(10), DREQ_GET_AUXV, qt, r)
    } else if ascii_of("exec-file:read:"@).is_prefix_of(rest) {
        post_exec_file(rest.skip(15), qt, r)
    } else if ascii_of("siginfo:read:"@).is_prefix_of(rest) {
        post_xfer_read(rest.skip(13), DREQ_READ_SIGINFO, qt, r)
    } else if ascii_of("siginfo:write:"@).is_prefix_of(rest) {
        post_siginfo_write(rest.skip(14), qt, r)
    } else {
        act_empty(r)
    }
}

/// The whole `q` family.
pub open spec fn post_q(body: Seq<u8>, qt: GdbThreadId, reverse_ok: bool, r: PacketAction) -> bool {
    if body == ascii_of("C"@) {
        surf_plain(r, DREQ_GET_CURRENT_THREAD, GdbThreadId::any_spec())
    } else if ascii_of("Supported:"@).is_prefix_of(body) {
        act_qsupported(r, has_feature_token(body.skip(10), mp_token()), qsupported_reply(reverse_ok))
    } else if body == ascii_of("Supported"@) {
        act_qsupported(r, false, qsupported_reply(reverse_ok))
    } else if ascii_of("Supported"@).is_prefix_of(body) {
        act_empty(r)
    } else if ascii_of("Attached"@).is_prefix_of(body) {
        act_internal(r, ascii_of("1"@))
    } else if body == ascii_of("fThreadInfo"@) {
        surf_plain(r, DREQ_GET_THREAD_LIST, GdbThreadId::any_spec())
    } else if body == ascii_of("sThreadInfo"@) {
        act_internal(r, ascii_of("l"@))
    } else if ascii_of("ThreadExtraInfo,"@).is_prefix_of(body) {
        post_extra_info(body.skip(16), r)
    } else if body == ascii_of("Offsets"@) {
        surf_plain(r, DREQ_GET_OFFSETS, GdbThreadId::any_spec())
    } else if ascii_of("TStatus"@).is_prefix_of(body) {
        act_empty(r)
    } else if ascii_of("Symbol:"@).is_prefix_of(body) {
        post_symbol(body.skip(7), r)
    } else if ascii_of("Rcmd,"@).is_prefix_of(body) {
        post_rcmd(body.skip(5), r)
    } else if ascii_of("GetTLSAddr:"@).is_prefix_of(body) {
        post_tls(body.skip(11), r)
    } else if ascii_of("Search:memory:"@).is_prefix_of(body) {
        post_search(body.skip(14), qt, r)
    } else if ascii_of("Xfer:"@).is_prefix_of(body) {
        post_xfer(body.skip(5), qt, r)
    } else {
        act_empty(r)
    }
}

/// The `Q` family: only no-ack negotiation is served.
pub open spec fn post_q_set(body: Seq<u8>, r: PacketAction) -> bool {
    if body == ascii_of("StartNoAckMode"@) {
        r is InternalNoAckMode
    } else {
        act_empty(r)
    }
}

// ---------------------------------------------------------------------
// The `v` family.

/// What the letter of a `vCont` action may be followed by.
pub open spec fn sig_part_valid(k: u8, sp: Seq<u8>) -> bool {
    if k == 99 || k == 115 {  // 'c' / 's'
        sp.len() == 0
    } else if k == 67 || k == 83 {  // 'C' / 'S'
        valid_hex_u64(sp) && hex_value(sp) <= 0x7FFF_FFFF
    } else {
        false
    }
}

pub open spec fn sig_action_type(k: u8) -> GdbActionType {
    if k == 99 || k == 67 {
        GdbActionType::ActionContinue
    } else {
        GdbActionType::ActionStep
    }
}

pub open spec fn sig_value(k: u8, sp: Seq<u8>) -> Option<i32> {
    if k == 99 || k == 115 {
        None
    } else {
        Some(hex_value(sp) as i32)
    }
}

/// One `vCont` action is well formed.
pub open spec fn vcont_piece_valid(piece: Seq<u8>) -> bool {
    piece.len() >= 1 && {
        let k = piece[0];
        let rest = piece.skip(1);
        if rest.contains(58) {
            exists|sp: Seq<u8>, tp: Seq<u8>|
                #[trigger] split_first(rest, 58, sp, tp) && sig_part_valid(k, sp)
                    && valid_thread_id_str(tp)
        } else {
            sig_part_valid(k, rest)
        }
    }
}

/// `act` is what one `vCont` action piece asks for; an action with no
/// thread suffix applies to every thread.
pub open spec fn vcont_action_ok(piece: Seq<u8>, act: GdbContAction) -> bool {
    piece.len() >= 1 && {
        let k = piece[0];
        let rest = piece.skip(1);
        if rest.contains(58) {
            exists|sp: Seq<u8>, tp: Seq<u8>|
                #[trigger] split_first(rest, 58, sp, tp) && sig_part_valid(k, sp)
                    && valid_thread_id_str(tp) && act.type_ == sig_action_type(k)
                    && act.maybe_signal_to_deliver == sig_value(k, sp) && thread_id_str_value(
                    tp,
                    act.target,
                )
        } else {
            sig_part_valid(k, rest) && act.type_ == sig_action_type(k)
                && act.maybe_signal_to_deliver == sig_value(k, rest) && act.target
                == GdbThreadId::all_spec()
        }
    }
}

/// `vCont;<action>[;<action>]...`: every piece must parse.
pub open spec fn post_vcont(part: Seq<u8>, r: PacketAction) -> bool {
    {
        let ps = split_all(part, 59);
        if forall|i: int| 0 <= i < ps.len() ==> #[trigger] vcont_piece_valid(ps[i]) {
            r matches PacketAction::Surface(req) && req.type_ == DREQ_CONT && req.target
                == GdbThreadId::any_spec() && !req.suppress_debugger_stop && (req.value matches
            GdbRequestValue::GdbRequestCont(c) && c.run_direction == RunDirection::RunForward
                && c.actions@.len() == ps.len() && forall|i: int|
                0 <= i < ps.len() ==> vcont_action_ok(ps[i], #[trigger] c.actions@[i]))
        } else {
            act_violation(r)
        }
    }
}

/// `vFile:setfs:<pid>`.
pub open spec fn post_setfs(s: Seq<u8>, r: PacketAction) -> bool {
    if valid_tid_num(s) {
        r matches PacketAction::Surface(req) && req.type_ == DREQ_FILE_SETFS && req.target
            == GdbThreadId::any_spec() && !req.suppress_debugger_stop && (req.value matches
        GdbRequestValue::GdbRequestFileSetfs(f) && f.pid == tid_num_value(s))
    } else {
        act_violation(r)
    }
}

/// `vFile:open:<hex-name>,<flags>,<mode>`: the flag word is translated
/// to the host's before it is surfaced.
pub open spec fn post_open(s: Seq<u8>, r: PacketAction) -> bool {
    if s.contains(44) {
        exists|namehex: Seq<u8>, rest: Seq<u8>|
            #[trigger] split_first(s, 44, namehex, rest) && (if rest.contains(44) {
                exists|flagstr: Seq<u8>, modestr: Seq<u8>|
                    #[trigger] split_first(rest, 44, flagstr, modestr) && (if valid_hex_pairs(
                        namehex,
                    ) && valid_hex_u64(flagstr) && hex_value(flagstr) <= 0xFFFF
                        && valid_gdb_open_flags(hex_value(flagstr) as i64) && valid_hex_u64(modestr)
                        && hex_value(modestr) <= 0x7FFF_FFFF {
                        r matches PacketAction::Surface(req) && req.type_ == DREQ_FILE_OPEN
                            && req.target == GdbThreadId::any_spec()
                            && !req.suppress_debugger_stop && (req.value matches
                        GdbRequestValue::GdbRequestFileOpen(f) && f.file_name@ == hex_pairs_value(
                            namehex,
                        ) && f.flags == host_open_flags_of(hex_value(flagstr) as i64) && f.mode
                            == hex_value(modestr))
                    } else {
                        act_violation(r)
                    })
            } else {
                act_violation(r)
            })
    } else {
        act_violation(r)
    }
}

/// `vFile:pread:<fd>,<count>,<offset>`.
pub open spec fn post_pread(s: Seq<u8>, r: PacketAction) -> bool {
    if s.contains(44) {
        exists|fdstr: Seq<u8>, rest: Seq<u8>|
            #[trigger] split_first(s, 44, fdstr, rest) && (if rest.contains(44) {
                exists|cnt: Seq<u8>, off: Seq<u8>|
                    #[trigger] split_first(rest, 44, cnt, off) && (if valid_hex_u64(fdstr)
                        && hex_value(fdstr) <= 0x7FFF_FFFF && valid_hex_usize(cnt) && valid_hex_u64(
                        off,
                    ) {
                        r matches PacketAction::Surface(req) && req.type_ == DREQ_FILE_PREAD
                            && req.target == GdbThreadId::any_spec()
                            && !req.suppress_debugger_stop && (req.value matches
                        GdbRequestValue::GdbRequestFilePread(f) && f.fd == hex_value(fdstr)
                            && f.size == hex_value(cnt) && f.offset == hex_value(off))
                    } else {
                        act_violation(r)
                    })
            } else {
                act_violation(r)
            })
    } else {
        act_violation(r)
    }
}

/// `vFile:close:<fd>`.
pub open spec fn post_close(s: Seq<u8>, r: PacketAction) -> bool {
    if valid_hex_u64(s) && hex_value(s) <= 0x7FFF_FFFF {
        r matches PacketAction::Surface(req) && req.type_ == DREQ_FILE_CLOSE && req.target
            == GdbThreadId::any_spec() && !req.suppress_debugger_stop && (req.value matches
        GdbRequestValue::GdbRequestFileClose(f) && f.fd == hex_value(s))
    } else {
        act_violation(r)
    }
}

/// The whole `v` family.
pub open spec fn post_v(body: Seq<u8>, r: PacketAction) -> bool {
    if body == ascii_of("MustReplyEmpty"@) {
        act_empty(r)
    } else if body == ascii_of("CtrlC"@) {
        surf_plain(r, DREQ_INTERRUPT, GdbThreadId::any_spec())
    } else if body == ascii_of("Cont?"@) {
        act_internal(r, ascii_of("vCont;c;C;s;S"@))
    } else if ascii_of("Cont;"@).is_prefix_of(body) {
        post_vcont(body.skip(5), r)
    } else if ascii_of("File:setfs:"@).is_prefix_of(body) {
        post_setfs(body.skip(11), r)
    } else if ascii_of("File:open:"@).is_prefix_of(body) {
        post_open(body.skip(10), r)
    } else if ascii_of("File:pread:"@).is_prefix_of(body) {
        post_pread(body.skip(11), r)
    } else if ascii_of("File:close:"@).is_prefix_of(body) {
        post_close(body.skip(11), r)
    } else {
        act_empty(r)
    }
}

// ---------------------------------------------------------------------
// The whole dispatch.

/// What the stub does with one framed payload, given the selected
/// resume and query threads and whether reverse execution is offered.
pub open spec fn packet_action_ok(
    p: Seq<u8>,
    rt: GdbThreadId,
    qt: GdbThreadId,
    reverse_ok: bool,
    r: PacketAction,
) -> bool {
    if p.len() == 0 {
        act_empty(r)
    } else {
        let c = p[0];
        if c == 33 {  // '!'
            act_ok(r)
        } else if c == 63 {  // '?'
            surf_plain(r, DREQ_GET_STOP_REASON, qt)
        } else if c == 98 {  // 'b'
            post_bpacket(p.skip(1), rt, r)
        } else if c == 99 {  // 'c'
            post_legacy_plain(p, rt, GdbActionType::ActionContinue, r)
        } else if c == 115 {  // 's'
            post_legacy_plain(p, rt, GdbActionType::ActionStep, r)
        } else if c == 67 {  // 'C'
            post_legacy_sig(p.skip(1), rt, GdbActionType::ActionContinue, r)
        } else if c == 83 {  // 'S'
            post_legacy_sig(p.skip(1), rt, GdbActionType::ActionStep, r)
        } else if c == 68 || c == 107 {  // 'D' / 'k'
            surf_plain(r, DREQ_DETACH, GdbThreadId::any_spec())
        } else if c == 103 {  // 'g'
            surf_plain(r, DREQ_GET_REGS, qt)
        } else if c == 71 {  // 'G': the request vocabulary has no
            // write-all-registers operation, so the packet is
            // answered as unrecognized and the client falls back to
            // writing registers one at a time.
            act_empty(r)
        } else if c == 72 {  // 'H'
            post_select_thread(p.skip(1), r)
        } else if c == 109 {  // 'm'
            post_get_mem(p.skip(1), qt, r)
        } else if c == 77 {  // 'M'
            post_set_mem_hex(p.skip(1), qt, r)
        } else if c == 88 {  // 'X'
            post_set_mem_binary(p.skip(1), qt, r)
        } else if c == 112 {  // 'p'
            post_get_reg(p.skip(1), qt, r)
        } else if c == 80 {  // 'P'
            post_set_reg(p.skip(1), qt, r)
        } else if c == 113 {  // 'q'
            post_q(p.skip(1), qt, reverse_ok, r)
        } else if c == 81 {  // 'Q'
            post_q_set(p.skip(1), r)
        } else if c == 82 {  // 'R'
            post_restart(p.skip(1), r)
        } else if c == 84 {  // 'T'
            post_thread_alive(p.skip(1), r)
        } else if c == 118 {  // 'v'
            post_v(p.skip(1), r)
        } else if c == 90 {  // 'Z'
            post_watch(p.skip(1), true, r)
        } else if c == 122 {  // 'z'
            post_watch(p.skip(1), false, r)
        } else {
            act_empty(r)
        }
    }
}


// ---------------------------------------------------------------------
// Sub-parsers for the watchpoint, query, set and `v` families.

/// Are two received byte strings equal?
fn slice_eq(a: &[u8], b: &[u8]) -> (r: bool)
    ensures
        r == (a@ == b@),
{
    let n: usize = a.len();
    if n != b.len() {
        return false;
    }
    let mut i: usize = 0;
    while i < n
        invariant
            n == a@.len() && n == b@.len(),
            i <= n,
            forall|j: int| 0 <= j < i ==> a@[j] == b@[j],
        decreases n - i,
    {
        if a[i] != b[i] {
            proof {
                assert(a@[i as int] != b@[i as int]);
            }
            return false;
        }
        i = i + 1;
    }
    proof {
        assert(a@ =~= b@);
    }
    true
}

/// Is every byte plain ASCII?
fn check_all_ascii(s: &[u8]) -> (r: bool)
    ensures
        r == crate::hex::all_ascii(s@),
{
    let n: usize = s.len();
    let mut i: usize = 0;
    while i < n
        invariant
            n == s@.len(),
            i <= n,
            forall|j: int| 0 <= j < i ==> s@[j] < 128,
        decreases n - i,
    {
        if s[i] >= 128 {
            return false;
        }
        i = i + 1;
    }
    true
}

/// Does the feature list contain the token, `;`-bounded?
fn has_feature(s: &[u8], tok: &[u8]) -> (r: bool)
    requires
        tok@.len() >= 1,
    ensures
        r == has_feature_token(s@, tok@),
{
    let n: usize = s.len();
    let m: usize = tok.len();
    if n < m {
        proof {
            assert forall|i: int| !feature_match_at(s@, tok@, i) by {}
        }
        return false;
    }
    let mut i: usize = 0;
    while i <= n - m
        invariant
            n == s@.len() && m == tok@.len(),
            1 <= m <= n,
            i <= n - m + 1,
            forall|i2: int| 0 <= i2 < i ==> !feature_match_at(s@, tok@, i2),
        decreases n + 1 - i,
    {
        let bl = i == 0 || s[i - 1] == 59;
        let br = i + m == n || s[i + m] == 59;
        let part = &s[i..i + m];
        proof {
            assert(part@ =~= s@.subrange(i as int, i + m as int));
        }
        let eq = slice_eq(part, tok);
        if bl && br && eq {
            proof {
                assert(feature_match_at(s@, tok@, i as int));
            }
            return true;
        }
        proof {
            assert(!feature_match_at(s@, tok@, i as int));
        }
        i = i + 1;
    }
    proof {
        assert forall|i2: int| !feature_match_at(s@, tok@, i2) by {
            if 0 <= i2 && i2 + m <= n {
            }
        }
    }
    false
}

/// The features the stub advertises.
fn build_qsupported_reply(reverse_ok: bool) -> (r: Vec<u8>)
    ensures
        r@ == qsupported_reply(reverse_ok),
{
    proof {
        reveal_strlit(
            "PacketSize=1000;QStartNoAckMode+;multiprocess+;vContSupported+;qXfer:features:read+;qXfer:auxv:read+;qXfer:exec-file:read+;qXfer:siginfo:read+;qXfer:siginfo:write+",
        );
        reveal_strlit(";ReverseContinue+;ReverseStep+");
    }
    let mut v: Vec<u8> = Vec::new();
    crate::framing::push_ascii(
        &mut v,
        "PacketSize=1000;QStartNoAckMode+;multiprocess+;vContSupported+;qXfer:features:read+;qXfer:auxv:read+;qXfer:exec-file:read+;qXfer:siginfo:read+;qXfer:siginfo:write+",
    );
    if reverse_ok {
        crate::framing::push_ascii(&mut v, ";ReverseContinue+;ReverseStep+");
    }
    proof {
        assert(v@ =~= qsupported_reply(reverse_ok));
    }
    v
}

/// Decode the `;`-separated hex condition list of a watchpoint packet.
fn decode_cond_list(cs: &[u8]) -> (r: Option<Vec<Vec<u8>>>)
    ensures
        r is Some <==> pieces_all_hex_pairs(split_all(cs@, 59)),
        r matches Some(v) ==> v.deep_view() == cond_list_value(cs@),
{
    let pieces: Vec<Vec<u8>> = split_on_byte(cs, 59);
    let ghost ps = split_all(cs@, 59);
    let n: usize = pieces.len();
    proof {
        assert(pieces.deep_view().len() == pieces@.len());
    }
    let mut out: Vec<Vec<u8>> = Vec::new();
    let mut i: usize = 0;
    proof {
        assert(out.deep_view() =~~= ps.take(0).map_values(|p: Seq<u8>| hex_pairs_value(p)));
    }
    while i < n
        invariant
            ps == split_all(cs@, 59),
            pieces.deep_view() == ps,
            n == pieces@.len(),
            ps.len() == n,
            i <= n,
            forall|j: int| 0 <= j < i ==> #[trigger] valid_hex_pairs(ps[j]),
            out.deep_view() == ps.take(i as int).map_values(|p: Seq<u8>| hex_pairs_value(p)),
        decreases n - i,
    {
        proof {
            assert(pieces@[i as int]@ =~= pieces.deep_view()[i as int]);
        }
        match decode_hex_pairs(pieces[i].as_slice()) {
            None => {
                proof {
                    assert(!valid_hex_pairs(split_all(cs@, 59)[i as int]));
                    assert(!(pieces_all_hex_pairs(split_all(cs@, 59))));
                }
                return None;
            },
            Some(d) => {
                let ghost out_dv = out.deep_view();
                let ghost dv = d@;
                out.push(d);
                proof {
                    assert(out.deep_view() =~~= out_dv.push(dv));
                    assert(ps.take(i + 1 as int).map_values(|p: Seq<u8>| hex_pairs_value(p)) =~~=
                        ps.take(i as int).map_values(|p: Seq<u8>| hex_pairs_value(p)).push(
                        hex_pairs_value(ps[i as int]),
                    ));
                }
            },
        }
        i = i + 1;
    }
    proof {
        assert(ps.take(n as int) =~= ps);
    }
    Some(out)
}

/// `z`/`Z` watchpoint packets.
fn parse_watch(body: &[u8], set: bool) -> (r: PacketAction)
    ensures
        post_watch(body@, set, r),
        surfaced_req_wf(r),
{
    let (ks, rest) = match split_at_byte(body, 44) {
        None => {
            return PacketAction::Violation;
        },
        Some(p) => p,
    };
    proof {
        assert(body@.contains(44)) by {
            assert(body@[ks@.len() as int] == 44);
        }
    }
    let (addrs, rest2) = match split_at_byte(rest, 44) {
        None => {
            return PacketAction::Violation;
        },
        Some(p) => p,
    };
    proof {
        assert(rest@.contains(44)) by {
            assert(rest@[addrs@.len() as int] == 44);
        }
    }
    let kv = match parse_hex_u64(ks) {
        Some(v) if v <= 4 => Some(v),
        _ => None,
    };
    let mut conds: Vec<Vec<u8>> = Vec::new();
    let lens_opt: Option<&[u8]> = match split_at_byte(rest2, 59) {
        Some((lens, cs)) => {
            proof {
                assert(rest2@.contains(59)) by {
                    assert(rest2@[lens@.len() as int] == 59);
                }
            }
            match decode_cond_list(cs) {
                Some(c) => {
                    conds = c;
                    Some(lens)
                },
                None => {
                    return PacketAction::Violation;
                },
            }
        },
        None => {
            proof {
                assert(conds.deep_view() =~~= Seq::<Seq<u8>>::empty());
            }
            Some(rest2)
        },
    };
    let lens = match lens_opt {
        Some(l) => l,
        None => {
            return PacketAction::Violation;
        },
    };
    let av = parse_hex_usize(addrs);
    let lv = match parse_hex_u64(lens) {
        Some(v) if v <= 0x7FFF_FFFF => Some(v),
        _ => None,
    };
    match (kv, av, lv) {
        (Some(k), Some(addr), Some(len)) => {
            let base: GdbRequestType = if set {
                DREQ_SET_SW_BREAK
            } else {
                DREQ_REMOVE_SW_BREAK
            };
            let t: GdbRequestType = base + (k as GdbRequestType);
            PacketAction::Surface(
                GdbRequest {
                    type_: t,
                    value: GdbRequestValue::GdbRequestWatch(
                        Watch { addr, kind: len as i32, conditions: conds },
                    ),
                    target: GdbThreadId::any(),
                    suppress_debugger_stop: false,
                },
            )
        },
        _ => PacketAction::Violation,
    }
}

/// `qThreadExtraInfo,<id>`.
fn parse_extra_info(tidpart: &[u8]) -> (r: PacketAction)
    ensures
        post_extra_info(tidpart@, r),
        surfaced_req_wf(r),
{
    match parse_thread_id(tidpart) {
        Some(t) => surface_plain(DREQ_GET_THREAD_EXTRA_INFO, t),
        None => PacketAction::Violation,
    }
}

/// `qSymbol:<addr>:<hex-name>`.
fn parse_symbol(sympart: &[u8]) -> (r: PacketAction)
    ensures
        post_symbol(sympart@, r),
        surfaced_req_wf(r),
{
    let (ad, nm) = match split_at_byte(sympart, 58) {
        None => {
            return PacketAction::Violation;
        },
        Some(p) => p,
    };
    proof {
        assert(sympart@.contains(58)) by {
            assert(sympart@[ad@.len() as int] == 58);
        }
    }
    let address: usize = if ad.len() > 0 {
        match parse_hex_usize(ad) {
            Some(a) => a,
            None => {
                return PacketAction::Violation;
            },
        }
    } else {
        0
    };
    let name = match decode_hex_pairs(nm) {
        Some(d) => d,
        None => {
            return PacketAction::Violation;
        },
    };
    PacketAction::Surface(
        GdbRequest {
            type_: DREQ_QSYMBOL,
            value: GdbRequestValue::GdbRequestSymbol(
                Symbol { has_address: ad.len() > 0, address, name },
            ),
            target: GdbThreadId::any(),
            suppress_debugger_stop: false,
        },
    )
}

/// `qRcmd,<hex>`.
fn parse_rcmd(cmd: &[u8]) -> (r: PacketAction)
    ensures
        post_rcmd(cmd@, r),
        surfaced_req_wf(r),
{
    match decode_hex_pairs(cmd) {
        Some(d) => {
            if check_all_ascii(d.as_slice()) {
                PacketAction::Surface(
                    GdbRequest {
                        type_: DREQ_RD_CMD,
                        value: GdbRequestValue::GdbRequestText(d),
                        target: GdbThreadId::any(),
                        suppress_debugger_stop: false,
                    },
                )
            } else {
                PacketAction::Violation
            }
        },
        None => PacketAction::Violation,
    }
}

/// `qGetTLSAddr:<id>,<offset>,<load-module>`.
fn parse_tls(rest: &[u8]) -> (r: PacketAction)
    ensures
        post_tls(rest@, r),
        surfaced_req_wf(r),
{
    let (tid, rest2) = match split_at_byte(rest, 44) {
        None => {
            return PacketAction::Violation;
        },
        Some(p) => p,
    };
    proof {
        assert(rest@.contains(44)) by {
            assert(rest@[tid@.len() as int] == 44);
        }
    }
    let (off, lm) = match split_at_byte(rest2, 44) {
        None => {
            return PacketAction::Violation;
        },
        Some(p) => p,
    };
    proof {
        assert(rest2@.contains(44)) by {
            assert(rest2@[off@.len() as int] == 44);
        }
    }
    match (parse_thread_id(tid), parse_hex_usize(off), parse_hex_usize(lm)) {
        (Some(t), Some(offset), Some(load_module)) => {
            PacketAction::Surface(
                GdbRequest {
                    type_: DREQ_TLS,
                    value: GdbRequestValue::GdbRequestTls(Tls { offset, load_module }),
                    target: t,
                    suppress_debugger_stop: false,
                },
            )
        },
        _ => PacketAction::Violation,
    }
}

/// `qSearch:memory:<addr>;<len>;<pattern>`.
fn parse_search(rest: &[u8], qt: GdbThreadId) -> (r: PacketAction)
    ensures
        post_search(rest@, qt, r),
        surfaced_req_wf(r),
{
    let (ad, rest2) = match split_at_byte(rest, 59) {
        None => {
            return PacketAction::Violation;
        },
        Some(p) => p,
    };
    proof {
        assert(rest@.contains(59)) by {
            assert(rest@[ad@.len() as int] == 59);
        }
    }
    let (ln, pat) = match split_at_byte(rest2, 59) {
        None => {
            return PacketAction::Violation;
        },
        Some(p) => p,
    };
    proof {
        assert(rest2@.contains(59)) by {
            assert(rest2@[ln@.len() as int] == 59);
        }
    }
    match (parse_hex_usize(ad), parse_hex_usize(ln), unescape_binary(pat)) {
        (Some(addr), Some(len), Some(data)) => {
            PacketAction::Surface(
                GdbRequest {
                    type_: DREQ_SEARCH_MEM,
                    value: GdbRequestValue::GdbRequestMem(Mem { addr, len, data }),
                    target: qt,
                    suppress_debugger_stop: false,
                },
            )
        },
        _ => PacketAction::Violation,
    }
}

/// A `qXfer:<object>:read` request with an empty annex.
fn parse_xfer_read(s: &[u8], t: GdbRequestType, qt: GdbThreadId) -> (r: PacketAction)
    requires
        crate::request::is_mem_kind(t),
    ensures
        post_xfer_read(s@, t, qt, r),
        surfaced_req_wf(r),
{
    let (annex, ol) = match split_at_byte(s, 58) {
        None => {
            return PacketAction::Violation;
        },
        Some(p) => p,
    };
    proof {
        assert(s@.contains(58)) by {
            assert(s@[annex@.len() as int] == 58);
        }
    }
    if annex.len() != 0 {
        return PacketAction::Violation;
    }
    let (off, ln) = match split_at_byte(ol, 44) {
        None => {
            return PacketAction::Violation;
        },
        Some(p) => p,
    };
    proof {
        assert(ol@.contains(44)) by {
            assert(ol@[off@.len() as int] == 44);
        }
    }
    match (parse_hex_usize(off), parse_hex_usize(ln)) {
        (Some(addr), Some(len)) => {
            PacketAction::Surface(
                GdbRequest {
                    type_: t,
                    value: GdbRequestValue::GdbRequestMem(Mem { addr, len, data: Vec::new() }),
                    target: qt,
                    suppress_debugger_stop: false,
                },
            )
        },
        _ => PacketAction::Violation,
    }
}

/// `qXfer:exec-file:read:<annex>:<offset>,<length>`.
fn parse_exec_file(s: &[u8], qt: GdbThreadId) -> (r: PacketAction)
    ensures
        post_exec_file(s@, qt, r),
        surfaced_req_wf(r),
{
    let (annex, ol) = match split_at_byte(s, 58) {
        None => {
            return PacketAction::Violation;
        },
        Some(p) => p,
    };
    proof {
        assert(s@.contains(58)) by {
            assert(s@[annex@.len() as int] == 58);
        }
    }
    let target: GdbThreadId = if annex.len() == 0 {
        qt
    } else {
        match parse_hex_u64(annex) {
            Some(v) if v <= 0x7FFF_FFFF => GdbThreadId { pid: v as i32, tid: v as i32 },
            _ => {
                return PacketAction::Violation;
            },
        }
    };
    let (off, ln) = match split_at_byte(ol, 44) {
        None => {
            return PacketAction::Violation;
        },
        Some(p) => p,
    };
    proof {
        assert(ol@.contains(44)) by {
            assert(ol@[off@.len() as int] == 44);
        }
    }
    match (parse_hex_usize(off), parse_hex_usize(ln)) {
        (Some(addr), Some(len)) => {
            PacketAction::Surface(
                GdbRequest {
                    type_: DREQ_GET_EXEC_FILE,
                    value: GdbRequestValue::GdbRequestMem(Mem { addr, len, data: Vec::new() }),
                    target,
                    suppress_debugger_stop: false,
                },
            )
        },
        _ => PacketAction::Violation,
    }
}

/// `qXfer:siginfo:write:<annex>:<offset>:<binary>`.
fn parse_siginfo_write(s: &[u8], qt: GdbThreadId) -> (r: PacketAction)
    ensures
        post_siginfo_write(s@, qt, r),
        surfaced_req_wf(r),
{
    let (annex, rest2) = match split_at_byte(s, 58) {
        None => {
            return PacketAction::Violation;
        },
        Some(p) => p,
    };
    proof {
        assert(s@.contains(58)) by {
            assert(s@[annex@.len() as int] == 58);
        }
    }
    if annex.len() != 0 {
        return PacketAction::Violation;
    }
    let (off, dat) = match split_at_byte(rest2, 58) {
        None => {
            return PacketAction::Violation;
        },
        Some(p) => p,
    };
    proof {
        assert(rest2@.contains(58)) by {
            assert(rest2@[off@.len() as int] == 58);
        }
    }
    match (parse_hex_usize(off), unescape_binary(dat)) {
        (Some(addr), Some(data)) => {
            let len: usize = data.len();
            PacketAction::Surface(
                GdbRequest {
                    type_: DREQ_WRITE_SIGINFO,
                    value: GdbRequestValue::GdbRequestMem(Mem { addr, len, data }),
                    target: qt,
                    suppress_debugger_stop: false,
                },
            )
        },
        _ => PacketAction::Violation,
    }
}

/// The `qXfer` sub-families.
fn parse_xfer(rest: &[u8], qt: GdbThreadId) -> (r: PacketAction)
    ensures
        post_xfer(rest@, qt, r),
        surfaced_req_wf(r),
{
    proof {
        reveal_strlit("auxv:read:");
        reveal_strlit("exec-file:read:");
        reveal_strlit("siginfo:read:");
        reveal_strlit("siginfo:write:");
    }
    let n: usize = rest.len();
    if starts_with_lit(rest, "auxv:read:") {
        let s = &rest[10..n];
        proof {
            assert(s@ =~= rest@.skip(10));
        }
        parse_xfer_read(s, DREQ_GET_AUXV, qt)
    } else if starts_with_lit(rest, "exec-file:read:") {
        let s = &rest[15..n];
        proof {
            assert(s@ =~= rest@.skip(15));
        }
        parse_exec_file(s, qt)
    } else if starts_with_lit(rest, "siginfo:read:") {
        let s = &rest[13..n];
        proof {
            assert(s@ =~= rest@.skip(13));
        }
        parse_xfer_read(s, DREQ_READ_SIGINFO, qt)
    } else if starts_with_lit(rest, "siginfo:write:") {
        let s = &rest[14..n];
        proof {
            assert(s@ =~= rest@.skip(14));
        }
        parse_siginfo_write(s, qt)
    } else {
        act_empty_reply()
    }
}

/// The whole `q` family.
fn parse_q(body: &[u8], qt: GdbThreadId, reverse_ok: bool) -> (r: PacketAction)
    ensures
        post_q(body@, qt, reverse_ok, r),
        surfaced_req_wf(r),
{
    proof {
        reveal_strlit("C");
        reveal_strlit("Supported:");
        reveal_strlit("Supported");
        reveal_strlit("Attached");
        reveal_strlit("1");
        reveal_strlit("fThreadInfo");
        reveal_strlit("sThreadInfo");
        reveal_strlit("ThreadExtraInfo,");
        reveal_strlit("Offsets");
        reveal_strlit("TStatus");
        reveal_strlit("Symbol:");
        reveal_strlit("Rcmd,");
        reveal_strlit("GetTLSAddr:");
        reveal_strlit("Search:memory:");
        reveal_strlit("Xfer:");
        reveal_strlit("multiprocess+");
    }
    let n: usize = body.len();
    if equals_lit(body, "C") {
        surface_plain(DREQ_GET_CURRENT_THREAD, GdbThreadId::any())
    } else if starts_with_lit(body, "Supported:") {
        let feats = &body[10..n];
        proof {
            assert(feats@ =~= body@.skip(10));
        }
        let tok = ascii_vec("multiprocess+");
        let mp = has_feature(feats, tok.as_slice());
        PacketAction::InternalQSupported(mp, build_qsupported_reply(reverse_ok))
    } else if equals_lit(body, "Supported") {
        PacketAction::InternalQSupported(false, build_qsupported_reply(reverse_ok))
    } else if starts_with_lit(body, "Supported") {
        act_empty_reply()
    } else if starts_with_lit(body, "Attached") {
        PacketAction::Internal(ascii_vec("1"))
    } else if equals_lit(body, "fThreadInfo") {
        surface_plain(DREQ_GET_THREAD_LIST, GdbThreadId::any())
    } else if equals_lit(body, "sThreadInfo") {
        proof {
            reveal_strlit("l");
        }
        PacketAction::Internal(ascii_vec("l"))
    } else if starts_with_lit(body, "ThreadExtraInfo,") {
        let s = &body[16..n];
        proof {
            assert(s@ =~= body@.skip(16));
        }
        parse_extra_info(s)
    } else if equals_lit(body, "Offsets") {
        surface_plain(DREQ_GET_OFFSETS, GdbThreadId::any())
    } else if starts_with_lit(body, "TStatus") {
        act_empty_reply()
    } else if starts_with_lit(body, "Symbol:") {
        let s = &body[7..n];
        proof {
            assert(s@ =~= body@.skip(7));
        }
        parse_symbol(s)
    } else if starts_with_lit(body, "Rcmd,") {
        let s = &body[5..n];
        proof {
            assert(s@ =~= body@.skip(5));
        }
        parse_rcmd(s)
    } else if starts_with_lit(body, "GetTLSAddr:") {
        let s = &body[11..n];
        proof {
            assert(s@ =~= body@.skip(11));
        }
        parse_tls(s)
    } else if starts_with_lit(body, "Search:memory:") {
        let s = &body[14..n];
        proof {
            assert(s@ =~= body@.skip(14));
        }
        parse_search(s, qt)
    } else if starts_with_lit(body, "Xfer:") {
        let s = &body[5..n];
        proof {
            assert(s@ =~= body@.skip(5));
        }
        parse_xfer(s, qt)
    } else {
        act_empty_reply()
    }
}

/// The `Q` family.
fn parse_q_set(body: &[u8]) -> (r: PacketAction)
    ensures
        post_q_set(body@, r),
        surfaced_req_wf(r),
{
    proof {
        reveal_strlit("StartNoAckMode");
    }
    if equals_lit(body, "StartNoAckMode") {
        PacketAction::InternalNoAckMode
    } else {
        act_empty_reply()
    }
}

/// The letter of a `vCont` action and what follows it, up to any `:`.
fn parse_sig_part(k: u8, sp: &[u8]) -> (r: Option<(GdbActionType, Option<i32>)>)
    ensures
        r is Some <==> sig_part_valid(k, sp@),
        r matches Some((ty, sig)) ==> ty == sig_action_type(k) && sig == sig_value(k, sp@),
{
    if k == 99 || k == 115 {
        if sp.len() == 0 {
            Some(
                (
                    if k == 99 {
                        GdbActionType::ActionContinue
                    } else {
                        GdbActionType::ActionStep
                    },
                    None,
                ),
            )
        } else {
            None
        }
    } else if k == 67 || k == 83 {
        match parse_hex_u64(sp) {
            Some(v) if v <= 0x7FFF_FFFF => Some(
                (
                    if k == 67 {
                        GdbActionType::ActionContinue
                    } else {
                        GdbActionType::ActionStep
                    },
                    Some(v as i32),
                ),
            ),
            _ => None,
        }
    } else {
        None
    }
}

/// One `vCont` action piece.
fn parse_vcont_action(piece: &[u8]) -> (r: Option<GdbContAction>)
    ensures
        r is Some <==> vcont_piece_valid(piece@),
        r matches Some(a) ==> vcont_action_ok(piece@, a),
{
    if piece.len() == 0 {
        return None;
    }
    let k = piece[0];
    let rest = &piece[1..piece.len()];
    proof {
        assert(rest@ =~= piece@.skip(1));
    }
    match split_at_byte(rest, 58) {
        Some((sp, tp)) => {
            proof {
                assert(rest@.contains(58)) by {
                    assert(rest@[sp@.len() as int] == 58);
                }
            }
            match (parse_sig_part(k, sp), parse_thread_id(tp)) {
                (Some((ty, sig)), Some(t)) => Some(
                    GdbContAction { type_: ty, target: t, maybe_signal_to_deliver: sig },
                ),
                _ => {
                    proof {
                        lemma_split_first_unique(rest@, 58);
                    }
                    None
                },
            }
        },
        None => {
            match parse_sig_part(k, rest) {
                Some((ty, sig)) => Some(
                    GdbContAction {
                        type_: ty,
                        target: GdbThreadId::all(),
                        maybe_signal_to_deliver: sig,
                    },
                ),
                None => None,
            }
        },
    }
}

/// `vCont;<actions>`.
fn parse_vcont(part: &[u8]) -> (r: PacketAction)
    ensures
        post_vcont(part@, r),
        surfaced_req_wf(r),
{
    let pieces: Vec<Vec<u8>> = split_on_byte(part, 59);
    let ghost ps = split_all(part@, 59);
    let n: usize = pieces.len();
    proof {
        assert(pieces.deep_view().len() == pieces@.len());
    }
    let mut actions: Vec<GdbContAction> = Vec::new();
    let mut i: usize = 0;
    while i < n
        invariant
            ps == split_all(part@, 59),
            pieces.deep_view() == ps,
            n == pieces@.len(),
            ps.len() == n,
            i <= n,
            actions@.len() == i,
            forall|j: int| 0 <= j < i ==> #[trigger] vcont_piece_valid(ps[j]),
            forall|j: int| 0 <= j < i ==> vcont_action_ok(ps[j], #[trigger] actions@[j]),
        decreases n - i,
    {
        proof {
            assert(pieces@[i as int]@ =~= pieces.deep_view()[i as int]);
        }
        match parse_vcont_action(pieces[i].as_slice()) {
            None => {
                proof {
                    assert(!(forall|j: int|
                        0 <= j < ps.len() ==> vcont_piece_valid(#[trigger] ps[j]))) by {
                        assert(!vcont_piece_valid(ps[i as int]));
                    }
                }
                return PacketAction::Violation;
            },
            Some(a) => {
                actions.push(a);
            },
        }
        i = i + 1;
    }
    PacketAction::Surface(
        GdbRequest {
            type_: DREQ_CONT,
            value: GdbRequestValue::GdbRequestCont(
                Cont { run_direction: RunDirection::RunForward, actions },
            ),
            target: GdbThreadId::any(),
            suppress_debugger_stop: false,
        },
    )
}

/// `vFile:setfs:<pid>`.
fn parse_setfs(s: &[u8]) -> (r: PacketAction)
    ensures
        post_setfs(s@, r),
        surfaced_req_wf(r),
{
    match parse_tid_num(s) {
        Some(pid) => {
            PacketAction::Surface(
                GdbRequest {
                    type_: DREQ_FILE_SETFS,
                    value: GdbRequestValue::GdbRequestFileSetfs(FileSetfs { pid }),
                    target: GdbThreadId::any(),
                    suppress_debugger_stop: false,
                },
            )
        },
        None => PacketAction::Violation,
    }
}

/// `vFile:open:<hex-name>,<flags>,<mode>`.
fn parse_open(s: &[u8]) -> (r: PacketAction)
    ensures
        post_open(s@, r),
        surfaced_req_wf(r),
{
    let (namehex, rest) = match split_at_byte(s, 44) {
        None => {
            return PacketAction::Violation;
        },
        Some(p) => p,
    };
    proof {
        assert(s@.contains(44)) by {
            assert(s@[namehex@.len() as int] == 44);
        }
    }
    let (flagstr, modestr) = match split_at_byte(rest, 44) {
        None => {
            return PacketAction::Violation;
        },
        Some(p) => p,
    };
    proof {
        assert(rest@.contains(44)) by {
            assert(rest@[flagstr@.len() as int] == 44);
        }
    }
    let name = match decode_hex_pairs(namehex) {
        Some(d) => d,
        None => {
            return PacketAction::Violation;
        },
    };
    let fv: u64 = match parse_hex_u64(flagstr) {
        Some(v) if v <= 0xFFFF => v,
        _ => {
            return PacketAction::Violation;
        },
    };
    if !check_gdb_open_flags(fv as i64) {
        return PacketAction::Violation;
    }
    let flags: i32 = gdb_open_flags_to_system_flags(fv as i64);
    let mv: u64 = match parse_hex_u64(modestr) {
        Some(v) if v <= 0x7FFF_FFFF => v,
        _ => {
            return PacketAction::Violation;
        },
    };
    PacketAction::Surface(
        GdbRequest {
            type_: DREQ_FILE_OPEN,
            value: GdbRequestValue::GdbRequestFileOpen(
                FileOpen { file_name: name, flags, mode: mv as i32 },
            ),
            target: GdbThreadId::any(),
            suppress_debugger_stop: false,
        },
    )
}

/// `vFile:pread:<fd>,<count>,<offset>`.
fn parse_pread(s: &[u8]) -> (r: PacketAction)
    ensures
        post_pread(s@, r),
        surfaced_req_wf(r),
{
    let (fdstr, rest) = match split_at_byte(s, 44) {
        None => {
            return PacketAction::Violation;
        },
        Some(p) => p,
    };
    proof {
        assert(s@.contains(44)) by {
            assert(s@[fdstr@.len() as int] == 44);
        }
    }
    let (cnt, off) = match split_at_byte(rest, 44) {
        None => {
            return PacketAction::Violation;
        },
        Some(p) => p,
    };
    proof {
        assert(rest@.contains(44)) by {
            assert(rest@[cnt@.len() as int] == 44);
        }
    }
    let fd: u64 = match parse_hex_u64(fdstr) {
        Some(v) if v <= 0x7FFF_FFFF => v,
        _ => {
            return PacketAction::Violation;
        },
    };
    let size = match parse_hex_usize(cnt) {
        Some(v) => v,
        None => {
            return PacketAction::Violation;
        },
    };
    let offset = match parse_hex_u64(off) {
        Some(v) => v,
        None => {
            return PacketAction::Violation;
        },
    };
    PacketAction::Surface(
        GdbRequest {
            type_: DREQ_FILE_PREAD,
            value: GdbRequestValue::GdbRequestFilePread(
                FilePread { fd: fd as i32, size, offset },
            ),
            target: GdbThreadId::any(),
            suppress_debugger_stop: false,
        },
    )
}

/// `vFile:close:<fd>`.
fn parse_close(s: &[u8]) -> (r: PacketAction)
    ensures
        post_close(s@, r),
        surfaced_req_wf(r),
{
    match parse_hex_u64(s) {
        Some(v) if v <= 0x7FFF_FFFF => {
            PacketAction::Surface(
                GdbRequest {
                    type_: DREQ_FILE_CLOSE,
                    value: GdbRequestValue::GdbRequestFileClose(FileClose { fd: v as i32 }),
                    target: GdbThreadId::any(),
                    suppress_debugger_stop: false,
                },
            )
        },
        _ => PacketAction::Violation,
    }
}

/// The whole `v` family.
fn parse_v(body: &[u8]) -> (r: PacketAction)
    ensures
        post_v(body@, r),
        surfaced_req_wf(r),
{
    proof {
        reveal_strlit("MustReplyEmpty");
        reveal_strlit("CtrlC");
        reveal_strlit("Cont?");
        reveal_strlit("Cont;");
        reveal_strlit("vCont;c;C;s;S");
        reveal_strlit("File:setfs:");
        reveal_strlit("File:open:");
        reveal_strlit("File:pread:");
        reveal_strlit("File:close:");
    }
    let n: usize = body.len();
    if equals_lit(body, "MustReplyEmpty") {
        act_empty_reply()
    } else if equals_lit(body, "CtrlC") {
        surface_plain(DREQ_INTERRUPT, GdbThreadId::any())
    } else if equals_lit(body, "Cont?") {
        PacketAction::Internal(ascii_vec("vCont;c;C;s;S"))
    } else if starts_with_lit(body, "Cont;") {
        let s = &body[5..n];
        proof {
            assert(s@ =~= body@.skip(5));
        }
        parse_vcont(s)
    } else if starts_with_lit(body, "File:setfs:") {
        let s = &body[11..n];
        proof {
            assert(s@ =~= body@.skip(11));
        }
        parse_setfs(s)
    } else if starts_with_lit(body, "File:open:") {
        let s = &body[10..n];
        proof {
            assert(s@ =~= body@.skip(10));
        }
        parse_open(s)
    } else if starts_with_lit(body, "File:pread:") {
        let s = &body[11..n];
        proof {
            assert(s@ =~= body@.skip(11));
        }
        parse_pread(s)
    } else if starts_with_lit(body, "File:close:") {
        let s = &body[11..n];
        proof {
            assert(s@ =~= body@.skip(11));
        }
        parse_close(s)
    } else {
        act_empty_reply()
    }
}

/// Translate one framed payload into the action it demands.
pub fn parse_packet_payload(
    p: &[u8],
    rt: GdbThreadId,
    qt: GdbThreadId,
    reverse_ok: bool,
) -> (r: PacketAction)
    ensures
        packet_action_ok(p@, rt, qt, reverse_ok, r),
        surfaced_req_wf(r),
{
    let n: usize = p.len();
    if n == 0 {
        return act_empty_reply();
    }
    let c = p[0];
    let body = &p[1..n];
    proof {
        assert(body@ =~= p@.skip(1));
    }
    if c == 33 {
        proof {
            reveal_strlit("OK");
        }
        PacketAction::Internal(ascii_vec("OK"))
    } else if c == 63 {
        surface_plain(DREQ_GET_STOP_REASON, qt)
    } else if c == 98 {
        parse_bpacket(body, rt)
    } else if c == 99 {
        if n == 1 {
            surface_cont(RunDirection::RunForward, GdbActionType::ActionContinue, rt, None)
        } else {
            act_empty_reply()
        }
    } else if c == 115 {
        if n == 1 {
            surface_cont(RunDirection::RunForward, GdbActionType::ActionStep, rt, None)
        } else {
            act_empty_reply()
        }
    } else if c == 67 {
        parse_legacy_sig(body, rt, GdbActionType::ActionContinue)
    } else if c == 83 {
        parse_legacy_sig(body, rt, GdbActionType::ActionStep)
    } else if c == 68 || c == 107 {
        surface_plain(DREQ_DETACH, GdbThreadId::any())
    } else if c == 103 {
        surface_plain(DREQ_GET_REGS, qt)
    } else if c == 71 {
        // Writing all registers at once is not in the request
        // vocabulary; an empty reply makes the client use `P` instead.
        act_empty_reply()
    } else if c == 72 {
        parse_select_thread(body)
    } else if c == 109 {
        parse_get_mem(body, qt)
    } else if c == 77 {
        parse_set_mem_hex(body, qt)
    } else if c == 88 {
        parse_set_mem_binary(body, qt)
    } else if c == 112 {
        parse_get_reg(body, qt)
    } else if c == 80 {
        parse_set_reg(body, qt)
    } else if c == 113 {
        parse_q(body, qt, reverse_ok)
    } else if c == 81 {
        parse_q_set(body)
    } else if c == 82 {
        parse_restart(body)
    } else if c == 84 {
        parse_thread_alive(body)
    } else if c == 118 {
        parse_v(body)
    } else if c == 90 {
        parse_watch(body, true)
    } else if c == 122 {
        parse_watch(body, false)
    } else {
        act_empty_reply()
    }
}

} // verus!
