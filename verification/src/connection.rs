//! The state of one debugger session: the current request, the selected
//! threads, negotiated modes, and the two byte buffers that connect the
//! stub to its socket.  Everything here is in-memory; the caller owns
//! the socket, feeds received bytes in, and writes pending output out.

use crate::framing::{ascii_of, escape_binary, escaped_spec, checksum_spec, compute_checksum,
    packet_frame, push_ascii, ACK_CHAR, INTERRUPT_CHAR, NAK_CHAR, PACKET_START_CHAR,
    PACKET_TERM_CHAR};
use crate::hex::{hex2, hex_encoded, hex_min1, hex_min2, hex_val, is_hex_digit, push_hex2,
    push_hex_bytes, push_hex_min1, push_hex_min2, hex_digit_value};
use crate::parser::{packet_action_ok, parse_packet_payload, PacketAction};
use crate::registers::{print_reg_value, reg_value_digits, reg_wf, GdbRegisterValue};
use crate::replay_timeline::RunDirection;
use crate::request::{needs_immediate_response, req_wf, GdbRequest, GdbRequestValue, Mem, DREQ_CONT, DREQ_DETACH, DREQ_FILE_CLOSE, DREQ_FILE_OPEN,
    DREQ_FILE_PREAD, DREQ_FILE_SETFS, DREQ_GET_AUXV, DREQ_GET_CURRENT_THREAD, DREQ_GET_EXEC_FILE,
    DREQ_GET_IS_THREAD_ALIVE, DREQ_GET_MEM, DREQ_GET_OFFSETS, DREQ_GET_REG, DREQ_GET_REGS,
    DREQ_GET_STOP_REASON, DREQ_GET_THREAD_EXTRA_INFO, DREQ_GET_THREAD_LIST, DREQ_INTERRUPT,
    DREQ_NONE, DREQ_QSYMBOL, DREQ_RD_CMD, DREQ_READ_SIGINFO, DREQ_RESTART, DREQ_SEARCH_MEM,
    DREQ_SET_CONTINUE_THREAD, DREQ_SET_MEM, DREQ_SET_QUERY_THREAD, DREQ_SET_REG,
    DREQ_WATCH_FIRST, DREQ_WATCH_LAST, DREQ_WRITE_SIGINFO};
use crate::signals::{gdb_signum_opt, to_gdb_signum};
use crate::thread_id::{push_thread_id, thread_id_bytes, GdbThreadId};
use vstd::prelude::*;

verus! {

/// What the stub is allowed to offer the client.
#[derive(Copy, Clone)]
pub struct GdbConnectionFeatures {
    pub reverse_execution: bool,
}

impl Default for GdbConnectionFeatures {
    fn default() -> (r: Self)
        ensures
            r.reverse_execution,
    {
        // This is _not_ an arbitrary choice: replay exists to run backward.
        GdbConnectionFeatures { reverse_execution: true }
    }
}

/// The wire-protocol state of one session, wrapped up so that clients
/// see a (mostly) stateless interface.
pub struct GdbConnection {
    /// Current request to be satisfied.
    pub req: GdbRequest,
    /// Thread to be resumed.
    pub resume_thread: GdbThreadId,
    /// Thread for get/set requests.
    pub query_thread: GdbThreadId,
    /// The one thread group the stub admits to; stops of other groups
    /// are kept from the debugger.
    pub tgid: i32,
    pub cpu_features_: u32,
    /// True once no-ack mode is negotiated: no more `+`/`-` bytes.
    pub no_ack: bool,
    /// Bytes received and not yet consumed.
    pub inbuf: Vec<u8>,
    /// Index of the `#` that ends the current packet.
    pub packetend: usize,
    /// Bytes composed and not yet written to the socket.
    pub outbuf: Vec<u8>,
    pub features_: GdbConnectionFeatures,
    pub connection_alive_: bool,
    /// True once the client has offered the multiprocess extension.
    pub multiprocess_supported_: bool,
}

impl GdbConnection {
    /// The one structural invariant: the current request carries the
    /// payload its tag demands.
    pub open spec fn wf(self) -> bool {
        req_wf(self.req)
    }

    /// Everything except the named pieces of state is as it was.
    pub open spec fn same_except_outbuf(pre: GdbConnection, post: GdbConnection) -> bool {
        post == (GdbConnection { outbuf: post.outbuf, ..pre })
    }

    pub open spec fn same_except_outbuf_req(pre: GdbConnection, post: GdbConnection) -> bool {
        post == (GdbConnection { outbuf: post.outbuf, req: post.req, ..pre })
    }

    pub fn new(tgid: i32, features: GdbConnectionFeatures) -> (r: GdbConnection)
        ensures
            r.wf(),
            r.req.type_ == DREQ_NONE,
            r.resume_thread == GdbThreadId::all_spec(),
            r.query_thread == GdbThreadId::all_spec(),
            r.tgid == tgid,
            r.cpu_features_ == 0,
            !r.no_ack,
            r.inbuf@.len() == 0,
            r.outbuf@.len() == 0,
            r.features_ == features,
            r.connection_alive_,
            !r.multiprocess_supported_,
    {
        GdbConnection {
            req: GdbRequest::new(None),
            resume_thread: GdbThreadId::default(),
            query_thread: GdbThreadId::default(),
            tgid,
            cpu_features_: 0,
            no_ack: false,
            inbuf: Vec::new(),
            packetend: 0,
            outbuf: Vec::new(),
            features_: features,
            connection_alive_: true,
            multiprocess_supported_: false,
        }
    }

    /// Returns false once the connection has been closed.
    pub fn is_connection_alive(&self) -> (r: bool)
        ensures
            r == self.connection_alive_,
    {
        self.connection_alive_
    }

    pub fn features(&self) -> (r: GdbConnectionFeatures)
        ensures
            r == self.features_,
    {
        self.features_
    }

    pub fn set_cpu_features(&mut self, features: u32)
        ensures
            *final(self) == (GdbConnection { cpu_features_: features, ..*old(self) }),
    {
        self.cpu_features_ = features
    }

    pub fn cpu_features(&self) -> (r: u32)
        ensures
            r == self.cpu_features_,
    {
        self.cpu_features_
    }

    /// Hand the stub bytes read from the socket.
    pub fn append_input(&mut self, data: &[u8])
        ensures
            *final(self) == (GdbConnection { inbuf: final(self).inbuf, ..*old(self) }),
            final(self).inbuf@ == old(self).inbuf@ + data@,
    {
        self.inbuf.extend_from_slice(data);
    }

    /// The socket failed or closed: every buffer is dropped and the
    /// session is over.
    pub fn mark_connection_dead(&mut self)
        ensures
            *final(self) == (GdbConnection {
                inbuf: final(self).inbuf,
                outbuf: final(self).outbuf,
                connection_alive_: false,
                ..*old(self)
            }),
            final(self).inbuf@.len() == 0,
            final(self).outbuf@.len() == 0,
    {
        self.connection_alive_ = false;
        self.inbuf.clear();
        self.outbuf.clear();
    }

    /// Take the pending output, to be written to the socket in order.
    pub fn take_output(&mut self) -> (r: Vec<u8>)
        ensures
            *final(self) == (GdbConnection { outbuf: final(self).outbuf, ..*old(self) }),
            final(self).outbuf@.len() == 0,
            r@ == old(self).outbuf@,
    {
        let mut out: Vec<u8> = Vec::new();
        core::mem::swap(&mut out, &mut self.outbuf);
        out
    }

    /// Frame `data` as one packet: `$`, the bytes, `#`, two checksum
    /// digits.
    fn write_packet_bytes(&mut self, data: &[u8])
        ensures
            Self::same_except_outbuf(*old(self), *final(self)),
            final(self).outbuf@ == old(self).outbuf@ + packet_frame(data@),
    {
        let cs = compute_checksum(data);
        self.outbuf.push(PACKET_START_CHAR);
        self.outbuf.extend_from_slice(data);
        self.outbuf.push(PACKET_TERM_CHAR);
        push_hex2(&mut self.outbuf, cs);
        assert(self.outbuf@ =~= old(self).outbuf@ + packet_frame(data@));
    }

    /// Frame an ASCII literal as one packet.
    fn write_packet_lit(&mut self, lit: &str)
        requires
            vstd::string::is_ascii(lit),
        ensures
            Self::same_except_outbuf(*old(self), *final(self)),
            final(self).outbuf@ == old(self).outbuf@ + packet_frame(ascii_of(lit@)),
    {
        let mut v: Vec<u8> = Vec::new();
        push_ascii(&mut v, lit);
        self.write_packet_bytes(v.as_slice());
    }

    /// Frame a binary payload, escaping reserved bytes, after a prefix.
    fn write_binary_packet(&mut self, pfx: &[u8], data: &[u8])
        ensures
            Self::same_except_outbuf(*old(self), *final(self)),
            final(self).outbuf@ == old(self).outbuf@ + packet_frame(pfx@ + escaped_spec(data@)),
    {
        let mut buf: Vec<u8> = Vec::new();
        buf.extend_from_slice(pfx);
        let escaped = escape_binary(data);
        buf.extend_from_slice(escaped.as_slice());
        assert(buf@ =~= pfx@ + escaped_spec(data@));
        self.write_packet_bytes(buf.as_slice());
    }

    /// Frame data as hex digits after a prefix.
    fn write_hex_bytes_packet_with_prefix(&mut self, prefix: &[u8], data: &[u8])
        ensures
            Self::same_except_outbuf(*old(self), *final(self)),
            final(self).outbuf@ == old(self).outbuf@ + packet_frame(prefix@ + hex_encoded(data@)),
    {
        let mut buf: Vec<u8> = Vec::new();
        buf.extend_from_slice(prefix);
        push_hex_bytes(&mut buf, data);
        assert(buf@ =~= prefix@ + hex_encoded(data@));
        self.write_packet_bytes(buf.as_slice());
    }

    fn write_hex_bytes_packet(&mut self, data: &[u8])
        ensures
            Self::same_except_outbuf(*old(self), *final(self)),
            final(self).outbuf@ == old(self).outbuf@ + packet_frame(hex_encoded(data@)),
    {
        let empty: [u8; 0] = [];
        proof {
            assert([].view() + hex_encoded(data@) =~= hex_encoded(data@));
        }
        self.write_hex_bytes_packet_with_prefix(empty.as_slice(), data);
    }
}

/// What a sliced object read answers: an error for an offset past the
/// end, `l` at the end, `m` plus a middle slice, or `l` plus the tail.
pub open spec fn xfer_packet(data: Seq<u8>, o: int, l: int) -> Seq<u8> {
    if o > data.len() {
        packet_frame(ascii_of("E01"@))
    } else if o == data.len() {
        packet_frame(ascii_of("l"@))
    } else if o + l < data.len() {
        packet_frame(ascii_of("m"@) + escaped_spec(data.subrange(o, o + l)))
    } else {
        packet_frame(ascii_of("l"@) + escaped_spec(data.skip(o)))
    }
}

impl GdbConnection {
    /// Answer one chunk of a sliced object read.
    fn write_xfer_response(&mut self, data: &[u8], offset: usize, len: usize)
        ensures
            Self::same_except_outbuf(*old(self), *final(self)),
            final(self).outbuf@ == old(self).outbuf@ + xfer_packet(
                data@,
                offset as int,
                len as int,
            ),
    {
        proof {
            reveal_strlit("E01");
            reveal_strlit("l");
            reveal_strlit("m");
        }
        let size: usize = data.len();
        if offset > size {
            self.write_packet_lit("E01");
        } else if offset == size {
            self.write_packet_lit("l");
        } else if len < size - offset {
            let mut pfx: Vec<u8> = Vec::new();
            push_ascii(&mut pfx, "m");
            let part = &data[offset..offset + len];
            self.write_binary_packet(pfx.as_slice(), part);
        } else {
            let mut pfx: Vec<u8> = Vec::new();
            push_ascii(&mut pfx, "l");
            let part = &data[offset..size];
            proof {
                assert(part@ =~= data@.skip(offset as int));
            }
            self.write_binary_packet(pfx.as_slice(), part);
        }
    }

    /// Forget the current request; the caller flushes output.
    fn consume_request(&mut self)
        ensures
            *final(self) == (GdbConnection { req: final(self).req, ..*old(self) }),
            final(self).req.type_ == DREQ_NONE,
            final(self).wf(),
    {
        self.req = GdbRequest::new(None);
    }
}


/// The stop report for one thread: the translated signal, the thread in
/// the negotiated spelling, and the watchpoint address when one fired.
pub open spec fn stop_reply_packet(
    mp: bool,
    thread: GdbThreadId,
    maybe_sig: Option<i32>,
    watch: int,
) -> Seq<u8> {
    packet_frame(
        ascii_of("T"@) + hex_min2(gdb_signum_opt(maybe_sig) as nat) + ascii_of("thread:"@)
            + thread_id_bytes(mp, thread) + seq![59u8] + (if watch != 0 {
            ascii_of("watch:"@) + hex_min1(watch as nat) + seq![59u8]
        } else {
            Seq::<u8>::empty()
        }),
    )
}

/// A failed file operation: `F-1,` and the protocol errno.
pub open spec fn file_error_packet(host_errno: int) -> Seq<u8> {
    packet_frame(ascii_of("F-1,"@) + hex_min1(crate::fileflags::gdb_errno_of(host_errno) as nat))
}

/// The register file as one reply: each register's digits in order.
pub open spec fn regs_digits(file: Seq<GdbRegisterValue>) -> Seq<u8>
    decreases file.len(),
{
    if file.len() == 0 {
        Seq::<u8>::empty()
    } else {
        regs_digits(file.drop_last()) + reg_value_digits(file.last())
    }
}

/// One entry of the thread-list reply: only threads of the pretended
/// group are named, each followed by a comma.
pub open spec fn thread_list_item(mp: bool, tgid: i32, t: GdbThreadId) -> Seq<u8> {
    if t.pid == tgid {
        thread_id_bytes(mp, t) + seq![44u8]
    } else {
        Seq::<u8>::empty()
    }
}

pub open spec fn thread_list_items(mp: bool, tgid: i32, ts: Seq<GdbThreadId>) -> Seq<u8>
    decreases ts.len(),
{
    if ts.len() == 0 {
        Seq::<u8>::empty()
    } else {
        thread_list_items(mp, tgid, ts.drop_last()) + thread_list_item(mp, tgid, ts.last())
    }
}

/// The memory payload of the current request; meaningful when the tag
/// carries one.
pub open spec fn req_mem(req: GdbRequest) -> Mem {
    req.value->GdbRequestMem_0
}

impl GdbConnection {
    /// Call this when the target of `req` is needed but the thread is
    /// dead: a magic errno tells the user to restart the session.
    pub fn notify_no_such_thread(&mut self, req: &GdbRequest)
        requires
            old(self).wf(),
            req.type_ == old(self).req.type_,
        ensures
            final(self).wf(),
            Self::same_except_outbuf_req(*old(self), *final(self)),
            final(self).req.type_ == DREQ_NONE,
            final(self).outbuf@ == old(self).outbuf@ + packet_frame(ascii_of("E10"@)),
    {
        // '10' is the errno ECHILD, used as a magic code: the thread this
        // request targeted has died and the session should be restarted.
        proof {
            reveal_strlit("E10");
        }
        self.write_packet_lit("E10");
        self.consume_request();
    }

    /// Finish a restart request once the replay has been restored.
    pub fn notify_restart(&mut self)
        requires
            old(self).wf(),
            old(self).req.type_ == DREQ_RESTART,
        ensures
            final(self).wf(),
            *final(self) == (GdbConnection {
                req: final(self).req,
                resume_thread: GdbThreadId::any_spec(),
                query_thread: GdbThreadId::any_spec(),
                ..*old(self)
            }),
            final(self).req.type_ == DREQ_NONE,
    {
        // These threads may not exist at the first stop after restart;
        // the client should reset its selection, but help it out.
        self.resume_thread = GdbThreadId::any();
        self.query_thread = GdbThreadId::any();
        self.req = GdbRequest::new(None);
    }

    /// A restart request could not be honoured.
    pub fn notify_restart_failed(&mut self)
        requires
            old(self).wf(),
            old(self).req.type_ == DREQ_RESTART,
        ensures
            final(self).wf(),
            Self::same_except_outbuf_req(*old(self), *final(self)),
            final(self).req.type_ == DREQ_NONE,
            final(self).outbuf@ == old(self).outbuf@ + packet_frame(ascii_of("E01"@)),
    {
        proof {
            reveal_strlit("E01");
        }
        self.write_packet_lit("E01");
        self.consume_request();
    }

    /// The process exited with this code.
    pub fn notify_exit_code(&mut self, code: u8)
        requires
            old(self).wf(),
            old(self).req.type_ == DREQ_CONT || old(self).req.type_ == DREQ_INTERRUPT,
        ensures
            final(self).wf(),
            Self::same_except_outbuf_req(*old(self), *final(self)),
            final(self).req.type_ == DREQ_NONE,
            final(self).outbuf@ == old(self).outbuf@ + packet_frame(ascii_of("W"@) + hex2(code)),
    {
        proof {
            reveal_strlit("W");
        }
        let mut buf: Vec<u8> = Vec::new();
        push_ascii(&mut buf, "W");
        push_hex2(&mut buf, code);
        self.write_packet_bytes(buf.as_slice());
        self.consume_request();
    }

    /// The process was killed by this (host) signal.
    pub fn notify_exit_signal(&mut self, sig: i32)
        requires
            old(self).wf(),
            old(self).req.type_ == DREQ_CONT || old(self).req.type_ == DREQ_INTERRUPT,
            0 <= sig < 256,
        ensures
            final(self).wf(),
            Self::same_except_outbuf_req(*old(self), *final(self)),
            final(self).req.type_ == DREQ_NONE,
            final(self).outbuf@ == old(self).outbuf@ + packet_frame(
                ascii_of("X"@) + hex2(sig as u8),
            ),
    {
        proof {
            reveal_strlit("X");
        }
        let mut buf: Vec<u8> = Vec::new();
        push_ascii(&mut buf, "X");
        push_hex2(&mut buf, sig as u8);
        self.write_packet_bytes(buf.as_slice());
        self.consume_request();
    }

    /// One stop report, not yet consuming the request.
    fn send_stop_reply_packet(
        &mut self,
        thread: GdbThreadId,
        maybe_sig: Option<i32>,
        watch_addr: usize,
    )
        ensures
            Self::same_except_outbuf(*old(self), *final(self)),
            final(self).outbuf@ == old(self).outbuf@ + stop_reply_packet(
                old(self).multiprocess_supported_,
                thread,
                maybe_sig,
                watch_addr as int,
            ),
    {
        proof {
            reveal_strlit("T");
            reveal_strlit("thread:");
            reveal_strlit("watch:");
        }
        let mut buf: Vec<u8> = Vec::new();
        push_ascii(&mut buf, "T");
        let signum = to_gdb_signum(maybe_sig);
        push_hex_min2(&mut buf, signum as u64);
        push_ascii(&mut buf, "thread:");
        push_thread_id(&mut buf, self.multiprocess_supported_, thread);
        buf.push(59);
        if watch_addr != 0 {
            push_ascii(&mut buf, "watch:");
            push_hex_min1(&mut buf, watch_addr as u64);
            buf.push(59);
        }
        proof {
            assert(buf@ =~= ascii_of("T"@) + hex_min2(gdb_signum_opt(maybe_sig) as nat) + ascii_of(
                "thread:"@,
            ) + thread_id_bytes(old(self).multiprocess_supported_, thread) + seq![59u8] + (
            if watch_addr != 0 {
                ascii_of("watch:"@) + hex_min1(watch_addr as nat) + seq![59u8]
            } else {
                Seq::<u8>::empty()
            }));
        }
        self.write_packet_bytes(buf.as_slice());
    }

    /// A resume has finished: the target stopped.  A stop of a thread
    /// outside the pretended group is swallowed, leaving the resume
    /// request live.  After a reverse continue the selected threads
    /// widen to "any"; otherwise they follow the stopping thread.
    pub fn notify_stop(&mut self, thread: GdbThreadId, maybe_sig: Option<i32>, watch_addr: usize)
        requires
            old(self).wf(),
            old(self).req.type_ == DREQ_CONT || old(self).req.type_ == DREQ_INTERRUPT,
        ensures
            final(self).wf(),
            old(self).tgid != thread.pid ==> *final(self) == *old(self),
            old(self).tgid == thread.pid ==> {
                let reverse = old(self).req.type_ == DREQ_CONT && (old(self).req.value matches
                GdbRequestValue::GdbRequestCont(c) && c.run_direction
                    == RunDirection::RunBackward);
                &&& *final(self) == (GdbConnection {
                    req: final(self).req,
                    resume_thread: final(self).resume_thread,
                    query_thread: final(self).query_thread,
                    outbuf: final(self).outbuf,
                    ..*old(self)
                })
                &&& final(self).outbuf@ == old(self).outbuf@ + stop_reply_packet(
                    old(self).multiprocess_supported_,
                    thread,
                    maybe_sig,
                    watch_addr as int,
                )
                &&& final(self).req.type_ == DREQ_NONE
                &&& (reverse ==> final(self).resume_thread == GdbThreadId::any_spec()
                    && final(self).query_thread == GdbThreadId::any_spec())
                &&& (!reverse ==> final(self).resume_thread == thread && final(self).query_thread
                    == thread)
            },
    {
        if self.tgid != thread.pid {
            // Keep the continue request live: the engine will be asked to
            // carry on to the next stop the debugger may hear about.
            return ;
        }
        self.send_stop_reply_packet(thread, maybe_sig, watch_addr);

        // The client expects the focus to move to the stopping thread
        // after a forward continue or an interrupt, but to widen after a
        // reverse continue.
        let is_reverse = if self.req.is_resume_request() {
            match &self.req.value {
                GdbRequestValue::GdbRequestCont(c) => matches!(
                    c.run_direction,
                    RunDirection::RunBackward
                ),
                _ => false,
            }
        } else {
            false
        };
        if is_reverse {
            self.resume_thread = GdbThreadId::any();
            self.query_thread = GdbThreadId::any();
        } else {
            self.resume_thread = thread;
            self.query_thread = thread;
        }
        self.consume_request();
    }

    /// Tell the client which thread is current.
    pub fn reply_get_current_thread(&mut self, thread: GdbThreadId)
        requires
            old(self).wf(),
            old(self).req.type_ == DREQ_GET_CURRENT_THREAD,
        ensures
            final(self).wf(),
            Self::same_except_outbuf_req(*old(self), *final(self)),
            final(self).req.type_ == DREQ_NONE,
            final(self).outbuf@ == old(self).outbuf@ + packet_frame(
                ascii_of("QC"@) + thread_id_bytes(old(self).multiprocess_supported_, thread),
            ),
    {
        proof {
            reveal_strlit("QC");
        }
        let mut buf: Vec<u8> = Vec::new();
        push_ascii(&mut buf, "QC");
        push_thread_id(&mut buf, self.multiprocess_supported_, thread);
        self.write_packet_bytes(buf.as_slice());
        self.consume_request();
    }

    /// Answer with the target's auxiliary vector, sliced as asked;
    /// empty means it could not be read.
    pub fn reply_get_auxv(&mut self, auxv: &[u8])
        requires
            old(self).wf(),
            old(self).req.type_ == DREQ_GET_AUXV,
        ensures
            final(self).wf(),
            Self::same_except_outbuf_req(*old(self), *final(self)),
            final(self).req.type_ == DREQ_NONE,
            final(self).outbuf@ == old(self).outbuf@ + (if auxv@.len() == 0 {
                packet_frame(ascii_of("E01"@))
            } else {
                xfer_packet(
                    auxv@,
                    req_mem(old(self).req).addr as int,
                    req_mem(old(self).req).len as int,
                )
            }),
    {
        let (off, len) = {
            let m = self.req.mem();
            (m.addr, m.len)
        };
        if auxv.len() == 0 {
            proof {
                reveal_strlit("E01");
            }
            self.write_packet_lit("E01");
        } else {
            self.write_xfer_response(auxv, off, len);
        }
        self.consume_request();
    }

    /// Answer with the target's executable path, sliced as asked;
    /// empty means it is unknown.
    pub fn reply_get_exec_file(&mut self, exec_file: &[u8])
        requires
            old(self).wf(),
            old(self).req.type_ == DREQ_GET_EXEC_FILE,
        ensures
            final(self).wf(),
            Self::same_except_outbuf_req(*old(self), *final(self)),
            final(self).req.type_ == DREQ_NONE,
            final(self).outbuf@ == old(self).outbuf@ + (if exec_file@.len() == 0 {
                packet_frame(ascii_of("E01"@))
            } else {
                xfer_packet(
                    exec_file@,
                    req_mem(old(self).req).addr as int,
                    req_mem(old(self).req).len as int,
                )
            }),
    {
        let (off, len) = {
            let m = self.req.mem();
            (m.addr, m.len)
        };
        if exec_file.len() == 0 {
            proof {
                reveal_strlit("E01");
            }
            self.write_packet_lit("E01");
        } else {
            self.write_xfer_response(exec_file, off, len);
        }
        self.consume_request();
    }

    /// Is the requested thread alive?
    pub fn reply_get_is_thread_alive(&mut self, alive: bool)
        requires
            old(self).wf(),
            old(self).req.type_ == DREQ_GET_IS_THREAD_ALIVE,
        ensures
            final(self).wf(),
            Self::same_except_outbuf_req(*old(self), *final(self)),
            final(self).req.type_ == DREQ_NONE,
            final(self).outbuf@ == old(self).outbuf@ + packet_frame(
                if alive {
                    ascii_of("OK"@)
                } else {
                    ascii_of("E01"@)
                },
            ),
    {
        proof {
            reveal_strlit("OK");
            reveal_strlit("E01");
        }
        if alive {
            self.write_packet_lit("OK");
        } else {
            self.write_packet_lit("E01");
        }
        self.consume_request();
    }

    /// Free-form text about the request's target thread.
    pub fn reply_get_thread_extra_info(&mut self, info: &[u8])
        requires
            old(self).wf(),
            old(self).req.type_ == DREQ_GET_THREAD_EXTRA_INFO,
        ensures
            final(self).wf(),
            Self::same_except_outbuf_req(*old(self), *final(self)),
            final(self).req.type_ == DREQ_NONE,
            final(self).outbuf@ == old(self).outbuf@ + packet_frame(hex_encoded(info@)),
    {
        self.write_hex_bytes_packet(info);
        self.consume_request();
    }

    /// `ok` says whether the requested thread can be selected; on
    /// success the selection sticks.
    pub fn reply_select_thread(&mut self, ok: bool)
        requires
            old(self).wf(),
            old(self).req.type_ == DREQ_SET_CONTINUE_THREAD || old(self).req.type_
                == DREQ_SET_QUERY_THREAD,
        ensures
            final(self).wf(),
            *final(self) == (GdbConnection {
                req: final(self).req,
                resume_thread: final(self).resume_thread,
                query_thread: final(self).query_thread,
                outbuf: final(self).outbuf,
                ..*old(self)
            }),
            final(self).req.type_ == DREQ_NONE,
            final(self).resume_thread == (if ok && old(self).req.type_ == DREQ_SET_CONTINUE_THREAD {
                old(self).req.target
            } else {
                old(self).resume_thread
            }),
            final(self).query_thread == (if ok && old(self).req.type_ == DREQ_SET_QUERY_THREAD {
                old(self).req.target
            } else {
                old(self).query_thread
            }),
            final(self).outbuf@ == old(self).outbuf@ + packet_frame(
                if ok {
                    ascii_of("OK"@)
                } else {
                    ascii_of("E01"@)
                },
            ),
    {
        proof {
            reveal_strlit("OK");
            reveal_strlit("E01");
        }
        if ok && self.req.type_ == DREQ_SET_CONTINUE_THREAD {
            self.resume_thread = self.req.target;
        } else if ok && self.req.type_ == DREQ_SET_QUERY_THREAD {
            self.query_thread = self.req.target;
        }
        if ok {
            self.write_packet_lit("OK");
        } else {
            self.write_packet_lit("E01");
        }
        self.consume_request();
    }

    /// The first bytes of the requested memory; fewer than asked is
    /// fine, but nothing at all (for a nonzero ask) is an error.
    pub fn reply_get_mem(&mut self, mem: &[u8])
        requires
            old(self).wf(),
            old(self).req.type_ == DREQ_GET_MEM,
            mem@.len() <= req_mem(old(self).req).len,
        ensures
            final(self).wf(),
            Self::same_except_outbuf_req(*old(self), *final(self)),
            final(self).req.type_ == DREQ_NONE,
            final(self).outbuf@ == old(self).outbuf@ + (if req_mem(old(self).req).len > 0
                && mem@.len() == 0 {
                packet_frame(ascii_of("E01"@))
            } else {
                packet_frame(hex_encoded(mem@))
            }),
    {
        let reqlen = {
            let m = self.req.mem();
            m.len
        };
        if reqlen > 0 && mem.len() == 0 {
            proof {
                reveal_strlit("E01");
            }
            self.write_packet_lit("E01");
        } else {
            self.write_hex_bytes_packet(mem);
        }
        self.consume_request();
    }

    /// Whether a memory write was applied.
    pub fn reply_set_mem(&mut self, ok: bool)
        requires
            old(self).wf(),
            old(self).req.type_ == DREQ_SET_MEM,
        ensures
            final(self).wf(),
            Self::same_except_outbuf_req(*old(self), *final(self)),
            final(self).req.type_ == DREQ_NONE,
            final(self).outbuf@ == old(self).outbuf@ + packet_frame(
                if ok {
                    ascii_of("OK"@)
                } else {
                    ascii_of("E01"@)
                },
            ),
    {
        proof {
            reveal_strlit("OK");
            reveal_strlit("E01");
        }
        if ok {
            self.write_packet_lit("OK");
        } else {
            self.write_packet_lit("E01");
        }
        self.consume_request();
    }

    /// Whether a memory search hit, and where.
    pub fn reply_search_mem(&mut self, found: bool, addr: usize)
        requires
            old(self).wf(),
            old(self).req.type_ == DREQ_SEARCH_MEM,
        ensures
            final(self).wf(),
            Self::same_except_outbuf_req(*old(self), *final(self)),
            final(self).req.type_ == DREQ_NONE,
            final(self).outbuf@ == old(self).outbuf@ + (if found {
                packet_frame(ascii_of("1,"@) + hex_min1(addr as nat))
            } else {
                packet_frame(ascii_of("0"@))
            }),
    {
        proof {
            reveal_strlit("1,");
            reveal_strlit("0");
        }
        if found {
            let mut buf: Vec<u8> = Vec::new();
            push_ascii(&mut buf, "1,");
            push_hex_min1(&mut buf, addr as u64);
            self.write_packet_bytes(buf.as_slice());
        } else {
            self.write_packet_lit("0");
        }
        self.consume_request();
    }

    /// Section offsets are never relocated here: the reply is empty.
    pub fn reply_get_offsets(&mut self)
        requires
            old(self).wf(),
            old(self).req.type_ == DREQ_GET_OFFSETS,
        ensures
            final(self).wf(),
            Self::same_except_outbuf_req(*old(self), *final(self)),
            final(self).req.type_ == DREQ_NONE,
            final(self).outbuf@ == old(self).outbuf@ + packet_frame(Seq::<u8>::empty()),
    {
        let empty: [u8; 0] = [];
        self.write_packet_bytes(empty.as_slice());
        self.consume_request();
    }

    /// One register value, possibly undefined.
    pub fn reply_get_reg(&mut self, reg: &GdbRegisterValue)
        requires
            old(self).wf(),
            old(self).req.type_ == DREQ_GET_REG,
            reg_wf(*reg),
        ensures
            final(self).wf(),
            Self::same_except_outbuf_req(*old(self), *final(self)),
            final(self).req.type_ == DREQ_NONE,
            final(self).outbuf@ == old(self).outbuf@ + packet_frame(reg_value_digits(*reg)),
    {
        let mut buf: Vec<u8> = Vec::new();
        print_reg_value(reg, &mut buf);
        self.write_packet_bytes(buf.as_slice());
        self.consume_request();
    }

    /// The whole register file, in the order supplied.
    pub fn reply_get_regs(&mut self, file: &[GdbRegisterValue])
        requires
            old(self).wf(),
            old(self).req.type_ == DREQ_GET_REGS,
            forall|i: int| 0 <= i < file@.len() ==> #[trigger] reg_wf(file@[i]),
        ensures
            final(self).wf(),
            Self::same_except_outbuf_req(*old(self), *final(self)),
            final(self).req.type_ == DREQ_NONE,
            final(self).outbuf@ == old(self).outbuf@ + packet_frame(regs_digits(file@)),
    {
        let mut buf: Vec<u8> = Vec::new();
        let n: usize = file.len();
        let mut i: usize = 0;
        while i < n
            invariant
                n == file@.len(),
                i <= n,
                forall|j: int| 0 <= j < n ==> #[trigger] reg_wf(file@[j]),
                buf@ == regs_digits(file@.take(i as int)),
            decreases n - i,
        {
            proof {
                assert(file@.take(i + 1 as int).drop_last() =~= file@.take(i as int));
                assert(file@.take(i + 1 as int).last() == file@[i as int]);
            }
            print_reg_value(&file[i], &mut buf);
            i = i + 1;
        }
        proof {
            assert(file@.take(n as int) =~= file@);
        }
        self.write_packet_bytes(buf.as_slice());
        self.consume_request();
    }

    /// Whether a register write was applied; a failure is reported as
    /// an empty packet, because the client treats an explicit error on
    /// register writes as catastrophic.
    pub fn reply_set_reg(&mut self, ok: bool)
        requires
            old(self).wf(),
            old(self).req.type_ == DREQ_SET_REG,
        ensures
            final(self).wf(),
            Self::same_except_outbuf_req(*old(self), *final(self)),
            final(self).req.type_ == DREQ_NONE,
            final(self).outbuf@ == old(self).outbuf@ + packet_frame(
                if ok {
                    ascii_of("OK"@)
                } else {
                    Seq::<u8>::empty()
                },
            ),
    {
        proof {
            reveal_strlit("OK");
        }
        if ok {
            self.write_packet_lit("OK");
        } else {
            let empty: [u8; 0] = [];
            self.write_packet_bytes(empty.as_slice());
        }
        self.consume_request();
    }

    /// Why the target is stopped right now.
    pub fn reply_get_stop_reason(&mut self, which: GdbThreadId, sig: i32)
        requires
            old(self).wf(),
            old(self).req.type_ == DREQ_GET_STOP_REASON,
        ensures
            final(self).wf(),
            Self::same_except_outbuf_req(*old(self), *final(self)),
            final(self).req.type_ == DREQ_NONE,
            final(self).outbuf@ == old(self).outbuf@ + stop_reply_packet(
                old(self).multiprocess_supported_,
                which,
                Some(sig),
                0,
            ),
    {
        self.send_stop_reply_packet(which, Some(sig), 0);
        self.consume_request();
    }

    /// The live threads; only those of the pretended group are named.
    pub fn reply_get_thread_list(&mut self, threads: &[GdbThreadId])
        requires
            old(self).wf(),
            old(self).req.type_ == DREQ_GET_THREAD_LIST,
        ensures
            final(self).wf(),
            Self::same_except_outbuf_req(*old(self), *final(self)),
            final(self).req.type_ == DREQ_NONE,
            final(self).outbuf@ == old(self).outbuf@ + (if threads@.len() == 0 {
                packet_frame(ascii_of("l"@))
            } else {
                packet_frame(
                    (seq![109u8] + thread_list_items(
                        old(self).multiprocess_supported_,
                        old(self).tgid,
                        threads@,
                    )).drop_last(),
                )
            }),
    {
        if threads.len() == 0 {
            proof {
                reveal_strlit("l");
            }
            self.write_packet_lit("l");
        } else {
            let ghost mp = self.multiprocess_supported_;
            let ghost tg = self.tgid;
            let mut buf: Vec<u8> = Vec::new();
            buf.push(109);
            let n: usize = threads.len();
            let mut i: usize = 0;
            proof {
                assert(buf@ =~= seq![109u8] + thread_list_items(mp, tg, threads@.take(0)));
            }
            while i < n
                invariant
                    n == threads@.len(),
                    i <= n,
                    mp == self.multiprocess_supported_,
                    tg == self.tgid,
                    buf@ == seq![109u8] + thread_list_items(mp, tg, threads@.take(i as int)),
                decreases n - i,
            {
                proof {
                    assert(threads@.take(i + 1 as int).drop_last() =~= threads@.take(i as int));
                    assert(threads@.take(i + 1 as int).last() == threads@[i as int]);
                }
                let t = threads[i];
                if t.pid == self.tgid {
                    push_thread_id(&mut buf, self.multiprocess_supported_, t);
                    buf.push(44);
                    proof {
                        assert(buf@ =~= seq![109u8] + thread_list_items(
                            mp,
                            tg,
                            threads@.take(i + 1 as int),
                        ));
                    }
                } else {
                    proof {
                        assert(buf@ =~= seq![109u8] + thread_list_items(
                            mp,
                            tg,
                            threads@.take(i + 1 as int),
                        ));
                    }
                }
                i = i + 1;
            }
            proof {
                assert(threads@.take(n as int) =~= threads@);
            }
            // Omit the trailing comma (or the bare `m`, when no thread
            // of the group is live).
            let cut: usize = buf.len() - 1;
            let part = &buf.as_slice()[0..cut];
            proof {
                assert(part@ =~= (seq![109u8] + thread_list_items(mp, tg, threads@)).drop_last());
            }
            self.write_packet_bytes(part);
        }
        self.consume_request();
    }

    /// Whether a watchpoint change was applied.
    pub fn reply_watchpoint_request(&mut self, ok: bool)
        requires
            old(self).wf(),
            DREQ_WATCH_FIRST <= old(self).req.type_ <= DREQ_WATCH_LAST,
        ensures
            final(self).wf(),
            Self::same_except_outbuf_req(*old(self), *final(self)),
            final(self).req.type_ == DREQ_NONE,
            final(self).outbuf@ == old(self).outbuf@ + packet_frame(
                if ok {
                    ascii_of("OK"@)
                } else {
                    ascii_of("E01"@)
                },
            ),
    {
        proof {
            reveal_strlit("OK");
            reveal_strlit("E01");
        }
        if ok {
            self.write_packet_lit("OK");
        } else {
            self.write_packet_lit("E01");
        }
        self.consume_request();
    }

    /// Acknowledge a detach; some clients wait for it.
    pub fn reply_detach(&mut self)
        requires
            old(self).wf(),
            old(self).req.type_ == DREQ_DETACH,
        ensures
            final(self).wf(),
            Self::same_except_outbuf_req(*old(self), *final(self)),
            final(self).req.type_ == DREQ_NONE,
            final(self).outbuf@ == old(self).outbuf@ + packet_frame(ascii_of("OK"@)),
    {
        proof {
            reveal_strlit("OK");
        }
        self.write_packet_lit("OK");
        self.consume_request();
    }

    /// The target's signal record, sliced as asked; empty means it
    /// could not be read.
    pub fn reply_read_siginfo(&mut self, si_bytes: &[u8])
        requires
            old(self).wf(),
            old(self).req.type_ == DREQ_READ_SIGINFO,
        ensures
            final(self).wf(),
            Self::same_except_outbuf_req(*old(self), *final(self)),
            final(self).req.type_ == DREQ_NONE,
            final(self).outbuf@ == old(self).outbuf@ + (if si_bytes@.len() == 0 {
                packet_frame(ascii_of("E01"@))
            } else {
                xfer_packet(
                    si_bytes@,
                    req_mem(old(self).req).addr as int,
                    req_mem(old(self).req).len as int,
                )
            }),
    {
        let (off, len) = {
            let m = self.req.mem();
            (m.addr, m.len)
        };
        if si_bytes.len() == 0 {
            proof {
                reveal_strlit("E01");
            }
            self.write_packet_lit("E01");
        } else {
            self.write_xfer_response(si_bytes, off, len);
        }
        self.consume_request();
    }

    /// Writing the signal record back is not supported.
    pub fn reply_write_siginfo(&mut self)
        requires
            old(self).wf(),
            old(self).req.type_ == DREQ_WRITE_SIGINFO,
        ensures
            final(self).wf(),
            Self::same_except_outbuf_req(*old(self), *final(self)),
            final(self).req.type_ == DREQ_NONE,
            final(self).outbuf@ == old(self).outbuf@ + packet_frame(ascii_of("E01"@)),
    {
        proof {
            reveal_strlit("E01");
        }
        self.write_packet_lit("E01");
        self.consume_request();
    }

    /// The text answer to a maintenance command.
    pub fn reply_rd_cmd(&mut self, text: &[u8])
        requires
            old(self).wf(),
            old(self).req.type_ == DREQ_RD_CMD,
        ensures
            final(self).wf(),
            Self::same_except_outbuf_req(*old(self), *final(self)),
            final(self).req.type_ == DREQ_NONE,
            final(self).outbuf@ == old(self).outbuf@ + packet_frame(text@),
    {
        self.write_packet_bytes(text);
        self.consume_request();
    }

    /// Ask the client for the address of this symbol.
    pub fn send_qsymbol(&mut self, name: &[u8])
        requires
            old(self).wf(),
            old(self).req.type_ == DREQ_QSYMBOL,
        ensures
            final(self).wf(),
            Self::same_except_outbuf_req(*old(self), *final(self)),
            final(self).req.type_ == DREQ_NONE,
            final(self).outbuf@ == old(self).outbuf@ + packet_frame(
                ascii_of("qSymbol:"@) + hex_encoded(name@),
            ),
    {
        proof {
            reveal_strlit("qSymbol:");
        }
        let mut pfx: Vec<u8> = Vec::new();
        push_ascii(&mut pfx, "qSymbol:");
        self.write_hex_bytes_packet_with_prefix(pfx.as_slice(), name);
        self.consume_request();
    }

    /// No more symbols are wanted.
    pub fn qsymbols_finished(&mut self)
        requires
            old(self).wf(),
            old(self).req.type_ == DREQ_QSYMBOL,
        ensures
            final(self).wf(),
            Self::same_except_outbuf_req(*old(self), *final(self)),
            final(self).req.type_ == DREQ_NONE,
            final(self).outbuf@ == old(self).outbuf@ + packet_frame(ascii_of("OK"@)),
    {
        proof {
            reveal_strlit("OK");
        }
        self.write_packet_lit("OK");
        self.consume_request();
    }

    /// The resolved thread-local address, or an error.
    pub fn reply_tls_addr(&mut self, ok: bool, addr: usize)
        requires
            old(self).wf(),
            old(self).req.type_ == crate::request::DREQ_TLS,
        ensures
            final(self).wf(),
            Self::same_except_outbuf_req(*old(self), *final(self)),
            final(self).req.type_ == DREQ_NONE,
            final(self).outbuf@ == old(self).outbuf@ + (if ok {
                packet_frame(hex_min1(addr as nat) + seq![59u8])
            } else {
                packet_frame(ascii_of("E01"@))
            }),
    {
        if ok {
            let mut buf: Vec<u8> = Vec::new();
            push_hex_min1(&mut buf, addr as u64);
            buf.push(59);
            assert(buf@ =~= hex_min1(addr as nat) + seq![59u8]);
            self.write_packet_bytes(buf.as_slice());
        } else {
            proof {
                reveal_strlit("E01");
            }
            self.write_packet_lit("E01");
        }
        self.consume_request();
    }

    /// `F-1,` and the protocol errno for a failed file operation.
    fn send_file_error_reply(&mut self, system_errno: i32)
        ensures
            Self::same_except_outbuf(*old(self), *final(self)),
            final(self).outbuf@ == old(self).outbuf@ + file_error_packet(system_errno as int),
    {
        proof {
            reveal_strlit("F-1,");
        }
        let gdb_err = crate::fileflags::to_gdb_errno(system_errno);
        let mut buf: Vec<u8> = Vec::new();
        push_ascii(&mut buf, "F-1,");
        push_hex_min1(&mut buf, gdb_err as u64);
        self.write_packet_bytes(buf.as_slice());
    }

    /// Answer a file-system selection.
    pub fn reply_setfs(&mut self, err: i32)
        requires
            old(self).wf(),
            old(self).req.type_ == DREQ_FILE_SETFS,
        ensures
            final(self).wf(),
            Self::same_except_outbuf_req(*old(self), *final(self)),
            final(self).req.type_ == DREQ_NONE,
            final(self).outbuf@ == old(self).outbuf@ + (if err != 0 {
                file_error_packet(err as int)
            } else {
                packet_frame(ascii_of("F0"@))
            }),
    {
        if err != 0 {
            self.send_file_error_reply(err);
        } else {
            proof {
                reveal_strlit("F0");
            }
            self.write_packet_lit("F0");
        }
        self.consume_request();
    }

    /// Answer a file open with the new descriptor, or an error.
    pub fn reply_open(&mut self, fd: i32, err: i32)
        requires
            old(self).wf(),
            old(self).req.type_ == DREQ_FILE_OPEN,
            err == 0 ==> fd >= 0,
        ensures
            final(self).wf(),
            Self::same_except_outbuf_req(*old(self), *final(self)),
            final(self).req.type_ == DREQ_NONE,
            final(self).outbuf@ == old(self).outbuf@ + (if err != 0 {
                file_error_packet(err as int)
            } else {
                packet_frame(ascii_of("F"@) + hex_min1(fd as nat) + seq![59u8])
            }),
    {
        if err != 0 {
            self.send_file_error_reply(err);
        } else {
            proof {
                reveal_strlit("F");
            }
            let mut buf: Vec<u8> = Vec::new();
            push_ascii(&mut buf, "F");
            push_hex_min1(&mut buf, fd as u64);
            buf.push(59);
            assert(buf@ =~= ascii_of("F"@) + hex_min1(fd as nat) + seq![59u8]);
            self.write_packet_bytes(buf.as_slice());
        }
        self.consume_request();
    }

    /// Answer a positioned read with the bytes, or an error.
    pub fn reply_pread(&mut self, bytes: &[u8], err: i32)
        requires
            old(self).wf(),
            old(self).req.type_ == DREQ_FILE_PREAD,
        ensures
            final(self).wf(),
            Self::same_except_outbuf_req(*old(self), *final(self)),
            final(self).req.type_ == DREQ_NONE,
            final(self).outbuf@ == old(self).outbuf@ + (if err != 0 {
                file_error_packet(err as int)
            } else {
                packet_frame(
                    ascii_of("F"@) + hex_min1(bytes@.len()) + seq![59u8] + escaped_spec(bytes@),
                )
            }),
    {
        if err != 0 {
            self.send_file_error_reply(err);
        } else {
            proof {
                reveal_strlit("F");
            }
            let mut pfx: Vec<u8> = Vec::new();
            push_ascii(&mut pfx, "F");
            push_hex_min1(&mut pfx, bytes.len() as u64);
            pfx.push(59);
            self.write_binary_packet(pfx.as_slice(), bytes);
            proof {
                assert(pfx@ + escaped_spec(bytes@) =~= ascii_of("F"@) + hex_min1(bytes@.len())
                    + seq![59u8] + escaped_spec(bytes@));
            }
        }
        self.consume_request();
    }

    /// Answer a file close.
    pub fn reply_close(&mut self, err: i32)
        requires
            old(self).wf(),
            old(self).req.type_ == DREQ_FILE_CLOSE,
        ensures
            final(self).wf(),
            Self::same_except_outbuf_req(*old(self), *final(self)),
            final(self).req.type_ == DREQ_NONE,
            final(self).outbuf@ == old(self).outbuf@ + (if err != 0 {
                file_error_packet(err as int)
            } else {
                packet_frame(ascii_of("F0"@))
            }),
    {
        if err != 0 {
            self.send_file_error_reply(err);
        } else {
            proof {
                reveal_strlit("F0");
            }
            self.write_packet_lit("F0");
        }
        self.consume_request();
    }
}


/// A byte that begins something the framer cares about: a packet, or
/// the urgent interrupt.
pub open spec fn is_packet_start_byte(b: u8) -> bool {
    b == PACKET_START_CHAR || b == INTERRUPT_CHAR
}

/// A complete packet stands at the head of the input buffer: the bare
/// interrupt byte, or `$`, an unbroken payload, `#`, and two checksum
/// digits that match.
pub open spec fn packet_ready(c: GdbConnection) -> bool {
    c.inbuf@.len() >= 1 && ((c.inbuf@[0] == INTERRUPT_CHAR && c.packetend == 1) || (c.inbuf@[0]
        == PACKET_START_CHAR && 1 <= c.packetend && c.packetend + 3 <= c.inbuf@.len()
        && c.inbuf@[c.packetend as int] == PACKET_TERM_CHAR && (forall|j: int|
        1 <= j < c.packetend ==> c.inbuf@[j] != PACKET_TERM_CHAR) && is_hex_digit(
        c.inbuf@[c.packetend + 1],
    ) && is_hex_digit(c.inbuf@[c.packetend + 2]) && checksum_spec(
        c.inbuf@.subrange(1, c.packetend as int),
    ) == hex_val(c.inbuf@[c.packetend + 1]) * 16 + hex_val(c.inbuf@[c.packetend + 2])))
}

/// Nothing framed is waiting: the buffer is empty, or holds a packet
/// whose terminator (with its two checksum digits) has not arrived.
pub open spec fn no_complete_packet(s: Seq<u8>) -> bool {
    s.len() == 0 || (s[0] == PACKET_START_CHAR && forall|j: int|
        1 <= j && j + 3 <= s.len() ==> s[j] != PACKET_TERM_CHAR)
}

/// What one framing pass over buffered input yields: the
/// acknowledgement bytes written, the bytes left buffered, and the
/// index of the accepted packet's `#` (`Some(1)` for a bare
/// interrupt), or `None` when input ran dry.  Junk before a packet
/// start is discarded; a framed packet whose checksum digits do not
/// match earns one `-` (in ack mode) and is dropped; the first
/// accepted packet earns one `+` (in ack mode) and stays at the head.
pub open spec fn scan_input(s: Seq<u8>, no_ack: bool) -> (Seq<u8>, Seq<u8>, Option<int>)
    decreases s.len(), s.len() + 2int,
{
    if s.len() == 0 {
        (Seq::<u8>::empty(), Seq::<u8>::empty(), None::<int>)
    } else if s[0] == INTERRUPT_CHAR {
        (Seq::<u8>::empty(), s, Some(1int))
    } else if s[0] != PACKET_START_CHAR {
        scan_input(s.skip(1), no_ack)
    } else {
        scan_frame(s, no_ack, 1)
    }
}

/// Walk a `$`-headed buffer from index `j` toward its `#`.
pub open spec fn scan_frame(s: Seq<u8>, no_ack: bool, j: int) -> (Seq<u8>, Seq<u8>, Option<int>)
    decreases s.len(), s.len() - j,
{
    if j < 1 || j >= s.len() {
        // No terminator yet: the packet is still in flight.
        (Seq::<u8>::empty(), s, None::<int>)
    } else if s[j] != PACKET_TERM_CHAR {
        scan_frame(s, no_ack, j + 1)
    } else if j + 3 > s.len() {
        // The terminator is here but its checksum digits are not.
        (Seq::<u8>::empty(), s, None::<int>)
    } else if is_hex_digit(s[j + 1]) && is_hex_digit(s[j + 2]) && checksum_spec(
        s.subrange(1, j),
    ) == hex_val(s[j + 1]) * 16 + hex_val(s[j + 2]) {
        ((if no_ack {
            Seq::<u8>::empty()
        } else {
            seq![ACK_CHAR]
        }), s, Some(j))
    } else {
        // A damaged packet: one NAK (in ack mode), then scan on.
        ((if no_ack {
            Seq::<u8>::empty()
        } else {
            seq![NAK_CHAR]
        }) + scan_input(s.skip(j + 3), no_ack).0, scan_input(s.skip(j + 3), no_ack).1, scan_input(
            s.skip(j + 3),
            no_ack,
        ).2)
    }
}

/// Discarding leading junk does not change what the scan yields.
proof fn lemma_scan_skips_junk(s: Seq<u8>, no_ack: bool, k: int)
    requires
        0 <= k <= s.len(),
        forall|j: int| 0 <= j < k ==> !is_packet_start_byte(s[j]),
    ensures
        scan_input(s, no_ack) == scan_input(s.skip(k), no_ack),
    decreases k,
{
    if k > 0 {
        assert(!is_packet_start_byte(s[0]));
        assert(s.skip(1).skip(k - 1) =~= s.skip(k));
        lemma_scan_skips_junk(s.skip(1), no_ack, k - 1);
    } else {
        assert(s.skip(0) =~= s);
    }
}

/// A buffer with no packet start at all scans to nothing.
proof fn lemma_scan_no_start(s: Seq<u8>, no_ack: bool)
    requires
        forall|j: int| 0 <= j < s.len() ==> !is_packet_start_byte(s[j]),
    ensures
        scan_input(s, no_ack) == (Seq::<u8>::empty(), Seq::<u8>::empty(), None::<int>),
    decreases s.len(),
{
    if s.len() > 0 {
        assert(!is_packet_start_byte(s[0]));
        lemma_scan_no_start(s.skip(1), no_ack);
    }
}

/// Once no-ack mode is negotiated the framer writes nothing at all,
/// whatever arrives.
pub proof fn lemma_scan_silent_in_no_ack_mode(s: Seq<u8>)
    ensures
        scan_input(s, true).0 == Seq::<u8>::empty(),
    decreases s.len(), s.len() + 2int,
{
    if s.len() == 0 || s[0] == INTERRUPT_CHAR {
    } else if s[0] != PACKET_START_CHAR {
        lemma_scan_silent_in_no_ack_mode(s.skip(1));
    } else {
        lemma_scan_frame_silent_in_no_ack_mode(s, 1);
    }
}

proof fn lemma_scan_frame_silent_in_no_ack_mode(s: Seq<u8>, j: int)
    ensures
        scan_frame(s, true, j).0 == Seq::<u8>::empty(),
    decreases s.len(), s.len() - j,
{
    if j < 1 || j >= s.len() {
    } else if s[j] != PACKET_TERM_CHAR {
        lemma_scan_frame_silent_in_no_ack_mode(s, j + 1);
    } else if j + 3 > s.len() {
    } else if is_hex_digit(s[j + 1]) && is_hex_digit(s[j + 2]) && checksum_spec(
        s.subrange(1, j),
    ) == hex_val(s[j + 1]) * 16 + hex_val(s[j + 2]) {
    } else {
        lemma_scan_silent_in_no_ack_mode(s.skip(j + 3));
        assert(Seq::<u8>::empty() + scan_input(s.skip(j + 3), true).0 =~= Seq::<u8>::empty());
    }
}

/// Every acknowledgement the framer writes is a `+` or a `-`, there is
/// at most one `+`, and it comes last: one answer per packet, in order.
pub proof fn lemma_scan_acks_shape(s: Seq<u8>, no_ack: bool)
    ensures
        forall|j: int| 0 <= j < scan_input(s, no_ack).0.len() ==> (#[trigger] scan_input(
            s,
            no_ack,
        ).0[j] == ACK_CHAR || scan_input(s, no_ack).0[j] == NAK_CHAR),
        forall|j: int|
            0 <= j < scan_input(s, no_ack).0.len() - 1 ==> #[trigger] scan_input(s, no_ack).0[j]
                == NAK_CHAR,
    decreases s.len(), s.len() + 2int,
{
    if s.len() == 0 || s[0] == INTERRUPT_CHAR {
    } else if s[0] != PACKET_START_CHAR {
        lemma_scan_acks_shape(s.skip(1), no_ack);
        assert(scan_input(s, no_ack).0 == scan_input(s.skip(1), no_ack).0);
    } else {
        lemma_scan_frame_acks_shape(s, no_ack, 1);
        assert(scan_input(s, no_ack).0 == scan_frame(s, no_ack, 1).0);
    }
}

proof fn lemma_scan_frame_acks_shape(s: Seq<u8>, no_ack: bool, j: int)
    ensures
        forall|i: int| 0 <= i < scan_frame(s, no_ack, j).0.len() ==> (#[trigger] scan_frame(
            s,
            no_ack,
            j,
        ).0[i] == ACK_CHAR || scan_frame(s, no_ack, j).0[i] == NAK_CHAR),
        forall|i: int|
            0 <= i < scan_frame(s, no_ack, j).0.len() - 1 ==> #[trigger] scan_frame(
                s,
                no_ack,
                j,
            ).0[i] == NAK_CHAR,
    decreases s.len(), s.len() - j,
{
    if j < 1 || j >= s.len() {
    } else if s[j] != PACKET_TERM_CHAR {
        lemma_scan_frame_acks_shape(s, no_ack, j + 1);
        assert(scan_frame(s, no_ack, j).0 == scan_frame(s, no_ack, j + 1).0);
    } else if j + 3 > s.len() {
    } else if is_hex_digit(s[j + 1]) && is_hex_digit(s[j + 2]) && checksum_spec(
        s.subrange(1, j),
    ) == hex_val(s[j + 1]) * 16 + hex_val(s[j + 2]) {
        let acks = scan_frame(s, no_ack, j).0;
        assert(acks == if no_ack {
            Seq::<u8>::empty()
        } else {
            seq![ACK_CHAR]
        });
        assert forall|i: int| 0 <= i < acks.len() implies acks[i] == ACK_CHAR || acks[i]
            == NAK_CHAR by {
            assert(acks[i] == ACK_CHAR);
        }
    } else {
        lemma_scan_acks_shape(s.skip(j + 3), no_ack);
        let pfx = if no_ack {
            Seq::<u8>::empty()
        } else {
            seq![NAK_CHAR]
        };
        let tail = scan_input(s.skip(j + 3), no_ack).0;
        let acks = scan_frame(s, no_ack, j).0;
        assert(acks == pfx + tail);
        assert forall|i: int| 0 <= i < acks.len() implies acks[i] == ACK_CHAR || acks[i]
            == NAK_CHAR by {
            if i < pfx.len() {
                assert(acks[i] == NAK_CHAR);
            } else {
                assert(acks[i] == tail[i - pfx.len()]);
            }
        }
        assert forall|i: int| 0 <= i < acks.len() - 1 implies acks[i] == NAK_CHAR by {
            if i < pfx.len() {
                assert(acks[i] == NAK_CHAR);
            } else {
                assert(acks[i] == tail[i - pfx.len()]);
                assert(i - pfx.len() < tail.len() - 1);
            }
        }
    }
}

/// Stepping past non-terminator bytes does not change the frame scan.
proof fn lemma_scan_frame_walk(s: Seq<u8>, no_ack: bool, i: int, j: int)
    requires
        1 <= i <= j <= s.len(),
        forall|t: int| i <= t < j ==> s[t] != PACKET_TERM_CHAR,
    ensures
        scan_frame(s, no_ack, i) == scan_frame(s, no_ack, j),
    decreases j - i,
{
    if i < j {
        assert(s[i] != PACKET_TERM_CHAR);
        lemma_scan_frame_walk(s, no_ack, i + 1, j);
    }
}

/// Whether the framer found a whole packet, or ran out of bytes.
#[derive(Copy, Clone, PartialEq, Eq, Structural, Debug)]
pub enum ReadPacketStatus {
    PacketReady,
    NeedMoreInput,
}

/// What the caller driving `get_request_step` must do next.
#[derive(Copy, Clone, PartialEq, Eq, Structural, Debug)]
pub enum GetRequestStep {
    /// The current request is the engine's to satisfy.
    Ready,
    /// Block until more bytes arrive, feed them in, and step again.
    AwaitInput,
    /// A resume is pending and nothing is buffered: poll the socket
    /// without blocking.  If bytes are ready, feed them in and step
    /// again; if not, the unchanged resume request stands, and the
    /// engine should step the target once more.
    PollInput,
    /// One internal packet was answered; its reply waits in the output
    /// buffer.  Flush it and step again.
    Processed,
}

/// Find `b` in `s` at or after `from`.
fn find_byte_from(s: &[u8], from: usize, b: u8) -> (r: Option<usize>)
    requires
        from <= s@.len(),
    ensures
        r matches Some(i) ==> from <= i < s@.len() && s@[i as int] == b && forall|j: int|
            from <= j < i ==> s@[j] != b,
        r is None ==> forall|j: int| from <= j < s@.len() ==> s@[j] != b,
{
    let n: usize = s.len();
    let mut i: usize = from;
    while i < n
        invariant
            n == s@.len(),
            from <= i <= n,
            forall|j: int| from <= j < i ==> s@[j] != b,
        decreases n - i,
    {
        if s[i] == b {
            return Some(i);
        }
        i = i + 1;
    }
    None
}

impl GdbConnection {
    /// Drop the first `k` buffered input bytes.
    fn drop_inbuf_prefix(&mut self, k: usize)
        requires
            k <= old(self).inbuf@.len(),
        ensures
            *final(self) == (GdbConnection { inbuf: final(self).inbuf, ..*old(self) }),
            final(self).inbuf@ == old(self).inbuf@.skip(k as int),
    {
        let rest: Vec<u8> = vstd::slice::slice_to_vec(&self.inbuf.as_slice()[k..self.inbuf.len()]);
        self.inbuf = rest;
    }

    /// Discard bytes until a packet start or the interrupt byte leads
    /// the buffer.  Does not block; true when one was found.
    fn skip_to_packet_start(&mut self) -> (r: bool)
        ensures
            *final(self) == (GdbConnection { inbuf: final(self).inbuf, ..*old(self) }),
            !r ==> final(self).inbuf@.len() == 0 && (forall|j: int|
                0 <= j < old(self).inbuf@.len() ==> !is_packet_start_byte(old(self).inbuf@[j])),
            r ==> exists|k: int|
                0 <= k < old(self).inbuf@.len() && final(self).inbuf@ == old(self).inbuf@.skip(k)
                    && is_packet_start_byte(old(self).inbuf@[k]) && (forall|j: int|
                    0 <= j < k ==> !is_packet_start_byte(old(self).inbuf@[j])),
            r ==> final(self).inbuf@.len() >= 1 && is_packet_start_byte(final(self).inbuf@[0]),
    {
        let n: usize = self.inbuf.len();
        let mut k: usize = 0;
        while k < n
            invariant
                n == self.inbuf@.len(),
                k <= n,
                forall|j: int| 0 <= j < k ==> !is_packet_start_byte(self.inbuf@[j]),
                *self == (GdbConnection { inbuf: self.inbuf, ..*old(self) }),
                self.inbuf == old(self).inbuf,
            decreases n - k,
        {
            let b = self.inbuf[k];
            if b == PACKET_START_CHAR || b == INTERRUPT_CHAR {
                self.drop_inbuf_prefix(k);
                return true;
            }
            k = k + 1;
        }
        // Nothing of interest: every buffered byte can go.
        self.inbuf.clear();
        false
    }

    /// Scan buffered input for one whole packet, acknowledging or
    /// rejecting as negotiated.  Never blocks: the caller reads more
    /// bytes when told to.  Damaged packets are answered with `-` (in
    /// ack mode) and dropped; an accepted packet gets exactly one `+`
    /// (in ack mode) and stays at the head of the buffer, its `#` index
    /// recorded.  In no-ack mode nothing is ever written here.
    pub fn try_read_packet(&mut self) -> (r: ReadPacketStatus)
        ensures
            *final(self) == (GdbConnection {
                inbuf: final(self).inbuf,
                outbuf: final(self).outbuf,
                packetend: final(self).packetend,
                ..*old(self)
            }),
            ({
                let scanned = scan_input(old(self).inbuf@, old(self).no_ack);
                &&& final(self).outbuf@ == old(self).outbuf@ + scanned.0
                &&& final(self).inbuf@ == scanned.1
                &&& match scanned.2 {
                    Some(p) => r is PacketReady && final(self).packetend == p,
                    None => r is NeedMoreInput,
                }
            }),
            final(self).inbuf@.len() <= old(self).inbuf@.len(),
            r is PacketReady ==> packet_ready(*final(self)),
            r is NeedMoreInput ==> no_complete_packet(final(self).inbuf@),
    {
        let ghost whole = scan_input(old(self).inbuf@, old(self).no_ack);
        let ghost mut naks: Seq<u8> = Seq::<u8>::empty();
        proof {
            assert(self.outbuf@ =~= old(self).outbuf@ + naks);
            assert(naks + scan_input(self.inbuf@, old(self).no_ack).0 =~= scan_input(
                self.inbuf@,
                old(self).no_ack,
            ).0);
        }
        loop
            invariant
                *self == (GdbConnection {
                    inbuf: self.inbuf,
                    outbuf: self.outbuf,
                    packetend: self.packetend,
                    ..*old(self)
                }),
                whole == scan_input(old(self).inbuf@, old(self).no_ack),
                whole.0 == naks + scan_input(self.inbuf@, old(self).no_ack).0,
                whole.1 == scan_input(self.inbuf@, old(self).no_ack).1,
                whole.2 == scan_input(self.inbuf@, old(self).no_ack).2,
                self.outbuf@ == old(self).outbuf@ + naks,
                self.inbuf@.len() <= old(self).inbuf@.len(),
            decreases self.inbuf@.len(),
        {
            let ghost pre_skip = self.inbuf@;
            if !self.skip_to_packet_start() {
                proof {
                    lemma_scan_no_start(pre_skip, old(self).no_ack);
                    assert(self.outbuf@ =~= old(self).outbuf@ + whole.0);
                }
                return ReadPacketStatus::NeedMoreInput;
            }
            proof {
                let k = choose|k: int|
                    0 <= k < pre_skip.len() && self.inbuf@ == pre_skip.skip(k)
                        && is_packet_start_byte(pre_skip[k]) && (forall|j: int|
                        0 <= j < k ==> !is_packet_start_byte(pre_skip[j]));
                lemma_scan_skips_junk(pre_skip, old(self).no_ack, k);
            }
            let ghost cur = self.inbuf@;
            if self.inbuf[0] == INTERRUPT_CHAR {
                self.packetend = 1;
                proof {
                    assert(scan_input(cur, old(self).no_ack) == (
                        Seq::<u8>::empty(),
                        cur,
                        Some(1int),
                    ));
                    assert(self.outbuf@ =~= old(self).outbuf@ + whole.0);
                }
                return ReadPacketStatus::PacketReady;
            }
            // A `$`: find the `#` and the two digits after it.
            assert(scan_input(cur, old(self).no_ack) == scan_frame(cur, old(self).no_ack, 1));
            let pe = match find_byte_from(self.inbuf.as_slice(), 1, PACKET_TERM_CHAR) {
                None => {
                    proof {
                        lemma_scan_frame_walk(cur, old(self).no_ack, 1, cur.len() as int);
                        assert(self.outbuf@ =~= old(self).outbuf@ + whole.0);
                    }
                    return ReadPacketStatus::NeedMoreInput;
                },
                Some(i) => i,
            };
            proof {
                lemma_scan_frame_walk(cur, old(self).no_ack, 1, pe as int);
            }
            let blen: usize = self.inbuf.len();
            assert(pe < blen);
            if blen - pe < 3 {
                proof {
                    assert(self.outbuf@ =~= old(self).outbuf@ + whole.0);
                }
                return ReadPacketStatus::NeedMoreInput;
            }
            let d1 = self.inbuf[pe + 1];
            let d2 = self.inbuf[pe + 2];
            let cs = compute_checksum(&self.inbuf.as_slice()[1..pe]);
            let good: bool = match (hex_digit_value(d1), hex_digit_value(d2)) {
                (Some(h), Some(l)) => (h as u32) * 16 + (l as u32) == cs as u32,
                _ => false,
            };
            assert(good == (is_hex_digit(cur[pe + 1]) && is_hex_digit(cur[pe + 2])
                && checksum_spec(cur.subrange(1, pe as int)) == hex_val(cur[pe + 1]) * 16
                + hex_val(cur[pe + 2])));
            if good {
                if !self.no_ack {
                    self.outbuf.push(ACK_CHAR);
                    proof {
                        assert(whole.0 =~= naks + seq![ACK_CHAR]);
                        assert(self.outbuf@ =~= old(self).outbuf@ + whole.0);
                    }
                } else {
                    proof {
                        assert(self.outbuf@ =~= old(self).outbuf@ + whole.0);
                    }
                }
                self.packetend = pe;
                return ReadPacketStatus::PacketReady;
            } else {
                // A damaged packet: ask for a retransmit and drop it.
                let ghost tail = scan_input(cur.skip(pe + 3), old(self).no_ack);
                if !self.no_ack {
                    self.outbuf.push(NAK_CHAR);
                    proof {
                        naks = naks.push(NAK_CHAR);
                        assert(self.outbuf@ =~= old(self).outbuf@ + naks);
                        assert(whole.0 =~= naks + tail.0);
                    }
                } else {
                    proof {
                        assert(whole.0 =~= naks + tail.0);
                    }
                }
                self.drop_inbuf_prefix(pe + 3);
            }
        }
    }
}

/// The effect one packet action has on the session, and whether the
/// engine must now act.
pub open spec fn applied_action(
    pre: GdbConnection,
    post: GdbConnection,
    action: PacketAction,
    surfaced: bool,
) -> bool {
    match action {
        PacketAction::Internal(v) => !surfaced && post == (GdbConnection {
            inbuf: post.inbuf,
            outbuf: post.outbuf,
            packetend: post.packetend,
            ..pre
        }) && post.outbuf@ == pre.outbuf@ + packet_frame(v@),
        PacketAction::InternalNoAckMode => !surfaced && post == (GdbConnection {
            inbuf: post.inbuf,
            outbuf: post.outbuf,
            packetend: post.packetend,
            no_ack: true,
            ..pre
        }) && post.outbuf@ == pre.outbuf@ + packet_frame(ascii_of("OK"@)),
        PacketAction::InternalQSupported(mp, v) => !surfaced && post == (GdbConnection {
            inbuf: post.inbuf,
            outbuf: post.outbuf,
            packetend: post.packetend,
            multiprocess_supported_: mp,
            ..pre
        }) && post.outbuf@ == pre.outbuf@ + packet_frame(v@),
        PacketAction::Surface(req) => surfaced && post == (GdbConnection {
            inbuf: post.inbuf,
            packetend: post.packetend,
            req: post.req,
            ..pre
        }) && post.req == req,
        PacketAction::Violation => surfaced && post == (GdbConnection {
            inbuf: post.inbuf,
            outbuf: post.outbuf,
            packetend: post.packetend,
            req: post.req,
            connection_alive_: false,
            ..pre
        }) && post.req.type_ == DREQ_DETACH && post.inbuf@.len() == 0 && post.outbuf@.len() == 0,
    }
}

/// The effect one packet action has on the session when the framer
/// wrote `acks` first and left the scanned buffer `rest` with the
/// packet's `#` at `p`; `r` is what the driver must report.
pub open spec fn applied_scanned(
    pre: GdbConnection,
    acks: Seq<u8>,
    rest: Seq<u8>,
    p: int,
    post: GdbConnection,
    action: PacketAction,
    r: GetRequestStep,
) -> bool {
    match action {
        PacketAction::Internal(v) => r is Processed && post == (GdbConnection {
            inbuf: post.inbuf,
            outbuf: post.outbuf,
            packetend: post.packetend,
            ..pre
        }) && post.outbuf@ == pre.outbuf@ + acks + packet_frame(v@) && post.inbuf@ == rest.skip(
            p + 3,
        ),
        PacketAction::InternalNoAckMode => r is Processed && post == (GdbConnection {
            inbuf: post.inbuf,
            outbuf: post.outbuf,
            packetend: post.packetend,
            no_ack: true,
            ..pre
        }) && post.outbuf@ == pre.outbuf@ + acks + packet_frame(ascii_of("OK"@)) && post.inbuf@
            == rest.skip(p + 3),
        PacketAction::InternalQSupported(mp, v) => r is Processed && post == (GdbConnection {
            inbuf: post.inbuf,
            outbuf: post.outbuf,
            packetend: post.packetend,
            multiprocess_supported_: mp,
            ..pre
        }) && post.outbuf@ == pre.outbuf@ + acks + packet_frame(v@) && post.inbuf@ == rest.skip(
            p + 3,
        ),
        PacketAction::Surface(req) => r is Ready && post == (GdbConnection {
            inbuf: post.inbuf,
            outbuf: post.outbuf,
            packetend: post.packetend,
            req: post.req,
            ..pre
        }) && post.req == req && post.outbuf@ == pre.outbuf@ + acks && post.inbuf@ == rest.skip(
            p + 3,
        ),
        PacketAction::Violation => r is Ready && post == (GdbConnection {
            inbuf: post.inbuf,
            outbuf: post.outbuf,
            packetend: post.packetend,
            req: post.req,
            connection_alive_: false,
            ..pre
        }) && post.req.type_ == DREQ_DETACH && post.inbuf@.len() == 0 && post.outbuf@.len() == 0,
    }
}

/// What handling the packet the scan accepted must do to the session:
/// the bare interrupt becomes an interrupt request; a framed packet is
/// handled exactly as `packet_action_ok` fixes for its payload.
pub open spec fn packet_step_ok(
    pre: GdbConnection,
    acks: Seq<u8>,
    rest: Seq<u8>,
    p: int,
    post: GdbConnection,
    r: GetRequestStep,
) -> bool {
    if rest.len() >= 1 && rest[0] == INTERRUPT_CHAR {
        &&& r is Ready
        &&& post == (GdbConnection {
            inbuf: post.inbuf,
            outbuf: post.outbuf,
            packetend: post.packetend,
            req: post.req,
            ..pre
        })
        &&& post.outbuf@ == pre.outbuf@ + acks
        &&& post.inbuf@ == rest.skip(1)
        &&& post.req.type_ == DREQ_INTERRUPT
        &&& post.req.target == GdbThreadId::any_spec()
    } else {
        exists|action: PacketAction|
            #[trigger] packet_action_ok(
                rest.subrange(1, p),
                pre.resume_thread,
                pre.query_thread,
                pre.features_.reverse_execution,
                action,
            ) && applied_scanned(pre, acks, rest, p, post, action, r)
    }
}

impl GdbConnection {
    /// Interpret the packet at the head of the buffer.  True when the
    /// engine has something to do: the packet became the current
    /// request (or, on a protocol violation, the session died and a
    /// synthetic detach stands).  False when it was internal business.
    pub fn process_packet(&mut self) -> (r: bool)
        requires
            old(self).wf(),
            packet_ready(*old(self)),
        ensures
            final(self).wf(),
            final(self).inbuf@.len() < old(self).inbuf@.len(),
            r ==> final(self).req.type_ != crate::request::DREQ_NONE,
            old(self).inbuf@[0] == INTERRUPT_CHAR ==> r && *final(self) == (GdbConnection {
                inbuf: final(self).inbuf,
                req: final(self).req,
                ..*old(self)
            }) && final(self).inbuf@ == old(self).inbuf@.skip(1) && final(self).req.type_
                == DREQ_INTERRUPT && final(self).req.target == GdbThreadId::any_spec(),
            old(self).inbuf@[0] == PACKET_START_CHAR ==> exists|action: PacketAction|
                #[trigger] packet_action_ok(
                    old(self).inbuf@.subrange(1, old(self).packetend as int),
                    old(self).resume_thread,
                    old(self).query_thread,
                    old(self).features_.reverse_execution,
                    action,
                ) && applied_action(*old(self), *final(self), action, r)
                    && (final(self).connection_alive_ ==> final(self).inbuf@
                    == old(self).inbuf@.skip(old(self).packetend + 3)),
    {
        if self.inbuf[0] == INTERRUPT_CHAR {
            self.drop_inbuf_prefix(1);
            self.req = GdbRequest::new(Some(DREQ_INTERRUPT));
            return true;
        }
        let pe: usize = self.packetend;
        let blen: usize = self.inbuf.len();
        assert(self.inbuf@[0] == PACKET_START_CHAR);
        assert(1 <= pe && pe + 3 <= blen);
        let rt = self.resume_thread;
        let qt = self.query_thread;
        let rev = self.features_.reverse_execution;
        let action = parse_packet_payload(&self.inbuf.as_slice()[1..pe], rt, qt, rev);
        self.drop_inbuf_prefix(pe + 3);
        match action {
            PacketAction::Internal(v) => {
                self.write_packet_bytes(v.as_slice());
                false
            },
            PacketAction::InternalNoAckMode => {
                proof {
                    reveal_strlit("OK");
                }
                self.write_packet_lit("OK");
                self.no_ack = true;
                false
            },
            PacketAction::InternalQSupported(mp, v) => {
                self.multiprocess_supported_ = mp;
                self.write_packet_bytes(v.as_slice());
                false
            },
            PacketAction::Surface(req) => {
                self.req = req;
                true
            },
            PacketAction::Violation => {
                // A malformed packet past framing is a peer bug; the
                // session cannot continue.  Die as the transport does,
                // handing the engine a synthetic detach to unwind by.
                self.mark_connection_dead();
                self.req = GdbRequest::new(Some(DREQ_DETACH));
                true
            },
        }
    }

    /// One step toward the next request: consume at most one buffered
    /// packet.  A dead connection yields a synthetic detach; a pending
    /// restart is consumed by synthesising a stop-reason request, since
    /// the client expects a stop report on relaunch.  Otherwise the
    /// buffered input is scanned for one packet and that packet is
    /// handled; the caller loops, blocking, polling or flushing as the
    /// result directs.
    pub fn get_request_step(&mut self) -> (r: GetRequestStep)
        requires
            old(self).wf(),
            !old(self).connection_alive_ || old(self).req.type_ == DREQ_RESTART
                || !needs_immediate_response(old(self).req.type_),
        ensures
            final(self).wf(),
            r is Ready ==> final(self).req.type_ != crate::request::DREQ_NONE,
            !old(self).connection_alive_ ==> r is Ready && *final(self) == (GdbConnection {
                req: final(self).req,
                ..*old(self)
            }) && final(self).req.type_ == DREQ_DETACH && final(self).req.target
                == GdbThreadId::any_spec(),
            old(self).connection_alive_ && old(self).req.type_ == DREQ_RESTART ==> r is Ready
                && *final(self) == (GdbConnection {
                req: final(self).req,
                resume_thread: GdbThreadId::any_spec(),
                query_thread: GdbThreadId::any_spec(),
                ..*old(self)
            }) && final(self).req.type_ == DREQ_GET_STOP_REASON && final(self).req.target
                == GdbThreadId::any_spec(),
            old(self).connection_alive_ && old(self).req.type_ != DREQ_RESTART ==> ({
                let scanned = scan_input(old(self).inbuf@, old(self).no_ack);
                match scanned.2 {
                    None => {
                        &&& *final(self) == (GdbConnection {
                            inbuf: final(self).inbuf,
                            outbuf: final(self).outbuf,
                            packetend: final(self).packetend,
                            ..*old(self)
                        })
                        &&& final(self).outbuf@ == old(self).outbuf@ + scanned.0
                        &&& final(self).inbuf@ == scanned.1
                        &&& r == (if old(self).req.type_ == DREQ_CONT && scanned.1.len() == 0 {
                            GetRequestStep::PollInput
                        } else {
                            GetRequestStep::AwaitInput
                        })
                    },
                    Some(p) => packet_step_ok(
                        *old(self),
                        scanned.0,
                        scanned.1,
                        p,
                        *final(self),
                        r,
                    ),
                }
            }),
            old(self).no_ack ==> final(self).no_ack,
            final(self).tgid == old(self).tgid,
            final(self).features_ == old(self).features_,
            final(self).cpu_features_ == old(self).cpu_features_,
    {
        if !self.connection_alive_ {
            self.req = GdbRequest::new(Some(DREQ_DETACH));
            return GetRequestStep::Ready;
        }
        if self.req.type_ == DREQ_RESTART {
            // The client wants a stop packet when the process
            // "relaunches", however far away the replay really is.
            self.notify_restart();
            let mut req = GdbRequest::new(Some(DREQ_GET_STOP_REASON));
            req.target = self.query_thread;
            self.req = req;
            return GetRequestStep::Ready;
        }
        let ghost scanned = scan_input(self.inbuf@, self.no_ack);
        match self.try_read_packet() {
            ReadPacketStatus::NeedMoreInput => {
                // No whole packet is buffered.  With a resume pending
                // and nothing at all buffered, keep the target running;
                // otherwise block for the rest of the packet.
                if self.req.is_resume_request() && self.inbuf.len() == 0 {
                    GetRequestStep::PollInput
                } else {
                    GetRequestStep::AwaitInput
                }
            },
            ReadPacketStatus::PacketReady => {
                let ghost mid = *self;
                let ghost p: int = scanned.2->0;
                let surfaced = self.process_packet();
                let r: GetRequestStep = if surfaced {
                    GetRequestStep::Ready
                } else {
                    GetRequestStep::Processed
                };
                proof {
                    if mid.inbuf@[0] != INTERRUPT_CHAR {
                        let action = choose|a: PacketAction|
                            packet_action_ok(
                                mid.inbuf@.subrange(1, mid.packetend as int),
                                mid.resume_thread,
                                mid.query_thread,
                                mid.features_.reverse_execution,
                                a,
                            ) && applied_action(mid, *self, a, surfaced);
                        assert(packet_action_ok(
                            scanned.1.subrange(1, p),
                            old(self).resume_thread,
                            old(self).query_thread,
                            old(self).features_.reverse_execution,
                            action,
                        ));
                        assert(applied_scanned(
                            *old(self),
                            scanned.0,
                            scanned.1,
                            p,
                            *self,
                            action,
                            r,
                        ));
                    }
                }
                r
            },
        }
    }
}

} // verus!
