//! The typed request vocabulary the stub surfaces to its engine: a
//! closed set of request kinds, each with a typed payload, a target
//! thread, and a flag that suppresses the debugger-visible stop when the
//! request completes.

use crate::registers::{reg_wf, GdbRegisterValue};
use crate::replay_timeline::RunDirection;
use crate::thread_id::GdbThreadId;
use vstd::prelude::*;

verus! {

/// The tag of a request.
pub type GdbRequestType = u32;

pub const DREQ_NONE: GdbRequestType = 0;

pub const DREQ_GET_CURRENT_THREAD: GdbRequestType = 1;

pub const DREQ_GET_OFFSETS: GdbRequestType = 2;

pub const DREQ_GET_REGS: GdbRequestType = 3;

pub const DREQ_GET_STOP_REASON: GdbRequestType = 4;

pub const DREQ_GET_THREAD_LIST: GdbRequestType = 5;

pub const DREQ_INTERRUPT: GdbRequestType = 6;

pub const DREQ_DETACH: GdbRequestType = 7;

pub const DREQ_GET_IS_THREAD_ALIVE: GdbRequestType = 8;

pub const DREQ_GET_THREAD_EXTRA_INFO: GdbRequestType = 9;

pub const DREQ_SET_CONTINUE_THREAD: GdbRequestType = 10;

pub const DREQ_SET_QUERY_THREAD: GdbRequestType = 11;

/// Kinds from `DREQ_MEM_FIRST` to `DREQ_MEM_LAST` carry a memory
/// payload: an address (or offset), a length, and data bytes.
pub const DREQ_GET_MEM: GdbRequestType = 16;

pub const DREQ_SET_MEM: GdbRequestType = 17;

pub const DREQ_SEARCH_MEM: GdbRequestType = 18;

pub const DREQ_GET_AUXV: GdbRequestType = 19;

pub const DREQ_GET_EXEC_FILE: GdbRequestType = 20;

pub const DREQ_READ_SIGINFO: GdbRequestType = 21;

pub const DREQ_WRITE_SIGINFO: GdbRequestType = 22;

pub const DREQ_MEM_FIRST: GdbRequestType = DREQ_GET_MEM;

pub const DREQ_MEM_LAST: GdbRequestType = DREQ_WRITE_SIGINFO;

/// Kinds from `DREQ_REG_FIRST` to `DREQ_REG_LAST` carry one register
/// value.
pub const DREQ_GET_REG: GdbRequestType = 23;

pub const DREQ_SET_REG: GdbRequestType = 24;

pub const DREQ_REG_FIRST: GdbRequestType = DREQ_GET_REG;

pub const DREQ_REG_LAST: GdbRequestType = DREQ_SET_REG;

/// Kinds from `DREQ_WATCH_FIRST` to `DREQ_WATCH_LAST` carry a
/// watchpoint payload; five insertions first, then five removals, in
/// the wire's order: software break, hardware break, write, read,
/// access.
pub const DREQ_SET_SW_BREAK: GdbRequestType = 25;

pub const DREQ_SET_HW_BREAK: GdbRequestType = 26;

pub const DREQ_SET_WR_WATCH: GdbRequestType = 27;

pub const DREQ_SET_RD_WATCH: GdbRequestType = 28;

pub const DREQ_SET_RDWR_WATCH: GdbRequestType = 29;

pub const DREQ_REMOVE_SW_BREAK: GdbRequestType = 30;

pub const DREQ_REMOVE_HW_BREAK: GdbRequestType = 31;

pub const DREQ_REMOVE_WR_WATCH: GdbRequestType = 32;

pub const DREQ_REMOVE_RD_WATCH: GdbRequestType = 33;

pub const DREQ_REMOVE_RDWR_WATCH: GdbRequestType = 34;

pub const DREQ_WATCH_FIRST: GdbRequestType = DREQ_SET_SW_BREAK;

pub const DREQ_WATCH_LAST: GdbRequestType = DREQ_REMOVE_RDWR_WATCH;

pub const DREQ_CONT: GdbRequestType = 35;

pub const DREQ_RESTART: GdbRequestType = 36;

pub const DREQ_RD_CMD: GdbRequestType = 37;

pub const DREQ_TLS: GdbRequestType = 38;

pub const DREQ_QSYMBOL: GdbRequestType = 39;

pub const DREQ_FILE_SETFS: GdbRequestType = 40;

pub const DREQ_FILE_OPEN: GdbRequestType = 41;

pub const DREQ_FILE_PREAD: GdbRequestType = 42;

pub const DREQ_FILE_CLOSE: GdbRequestType = 43;

pub open spec fn is_mem_kind(t: GdbRequestType) -> bool {
    DREQ_MEM_FIRST <= t <= DREQ_MEM_LAST
}

pub open spec fn is_reg_kind(t: GdbRequestType) -> bool {
    DREQ_REG_FIRST <= t <= DREQ_REG_LAST
}

pub open spec fn is_watch_kind(t: GdbRequestType) -> bool {
    DREQ_WATCH_FIRST <= t <= DREQ_WATCH_LAST
}

/// Every tag the stub can produce.
pub open spec fn is_valid_kind(t: GdbRequestType) -> bool {
    t <= DREQ_SET_QUERY_THREAD || (DREQ_GET_MEM <= t <= DREQ_FILE_CLOSE)
}

/// Memory payload: the address (or object offset), the length, and, for
/// writes and searches, the raw bytes.
#[derive(Clone, Debug)]
pub struct Mem {
    pub addr: usize,
    pub len: usize,
    /// For memory writes, the `len` bytes to store; for searches, the
    /// bytes looked for.
    pub data: Vec<u8>,
}

impl Default for Mem {
    fn default() -> (r: Self)
        ensures
            r.addr == 0 && r.len == 0 && r.data@ == Seq::<u8>::empty(),
    {
        Mem { addr: 0, len: 0, data: Vec::new() }
    }
}

/// Watchpoint payload: the address, the width the wire calls "kind",
/// and any conditional expressions, each a byte string.
#[derive(Clone, Debug)]
pub struct Watch {
    pub addr: usize,
    pub kind: i32,
    pub conditions: Vec<Vec<u8>>,
}

impl Default for Watch {
    fn default() -> (r: Self)
        ensures
            r.addr == 0 && r.kind == 0 && r.conditions@ == Seq::<Vec<u8>>::empty(),
    {
        Watch { addr: 0, kind: 0, conditions: Vec::new() }
    }
}

/// Restart payload: a numeric parameter, a string parameter, and which
/// origin the restart counts from.
#[derive(Clone, Debug)]
pub struct Restart {
    pub param: i32,
    pub param_str: Vec<u8>,
    pub type_: GdbRestartType,
}

impl Default for Restart {
    fn default() -> (r: Self)
        ensures
            r.param == 0 && r.param_str@ == Seq::<u8>::empty() && r.type_
                == GdbRestartType::RestartFromPrevious,
    {
        Restart { param: 0, param_str: Vec::new(), type_: GdbRestartType::RestartFromPrevious }
    }
}

/// Resume payload: the direction of logical time and an ordered list of
/// per-thread actions.
#[derive(Clone, Debug)]
pub struct Cont {
    pub run_direction: RunDirection,
    pub actions: Vec<GdbContAction>,
}

impl Default for Cont {
    fn default() -> (r: Self)
        ensures
            r.run_direction == RunDirection::RunForward && r.actions@ == Seq::<
                GdbContAction,
            >::empty(),
    {
        Cont { run_direction: RunDirection::RunForward, actions: Vec::new() }
    }
}

/// Thread-local-storage payload: a byte offset and the remote address
/// of the load module.
#[derive(Copy, Clone, Debug)]
pub struct Tls {
    pub offset: usize,
    pub load_module: usize,
}

impl Default for Tls {
    fn default() -> (r: Self)
        ensures
            r.offset == 0 && r.load_module == 0,
    {
        Tls { offset: 0, load_module: 0 }
    }
}

/// Symbol payload: whether the client resolved the name, the address it
/// gave, and the name itself.
#[derive(Clone, Debug)]
pub struct Symbol {
    pub has_address: bool,
    pub address: usize,
    pub name: Vec<u8>,
}

impl Default for Symbol {
    fn default() -> (r: Self)
        ensures
            !r.has_address && r.address == 0 && r.name@ == Seq::<u8>::empty(),
    {
        Symbol { has_address: false, address: 0, name: Vec::new() }
    }
}

/// File-system selection payload for host file operations.
#[derive(Copy, Clone, Debug)]
pub struct FileSetfs {
    pub pid: i32,
}

impl Default for FileSetfs {
    fn default() -> (r: Self)
        ensures
            r.pid == 0,
    {
        FileSetfs { pid: 0 }
    }
}

/// File-open payload; the flags are already the host's, not the wire's.
#[derive(Clone, Debug)]
pub struct FileOpen {
    pub file_name: Vec<u8>,
    /// In host format, not the wire's format.
    pub flags: i32,
    pub mode: i32,
}

impl Default for FileOpen {
    fn default() -> (r: Self)
        ensures
            r.file_name@ == Seq::<u8>::empty() && r.flags == 0 && r.mode == 0,
    {
        FileOpen { file_name: Vec::new(), flags: 0, mode: 0 }
    }
}

/// Positioned-read payload for an open host file.
#[derive(Copy, Clone, Debug)]
pub struct FilePread {
    pub fd: i32,
    pub size: usize,
    pub offset: u64,
}

impl Default for FilePread {
    fn default() -> (r: Self)
        ensures
            r.fd == 0 && r.size == 0 && r.offset == 0,
    {
        FilePread { fd: 0, size: 0, offset: 0 }
    }
}

/// Close payload for an open host file.
#[derive(Copy, Clone, Debug)]
pub struct FileClose {
    pub fd: i32,
}

impl Default for FileClose {
    fn default() -> (r: Self)
        ensures
            r.fd == 0,
    {
        FileClose { fd: 0 }
    }
}

/// Which origin a restart counts from.
#[derive(Copy, Clone, PartialEq, Eq, Structural, Debug)]
pub enum GdbRestartType {
    RestartFromPrevious,
    RestartFromEvent,
    RestartFromCheckpoint,
}

impl Default for GdbRestartType {
    fn default() -> (r: Self)
        ensures
            r == GdbRestartType::RestartFromPrevious,
    {
        GdbRestartType::RestartFromPrevious
    }
}

/// What one resume action asks of one thread.
#[derive(Copy, Clone, PartialEq, Eq, Structural, Debug)]
pub enum GdbActionType {
    ActionContinue,
    ActionStep,
}

/// One resume action: continue or step, a target, and an optional
/// signal to deliver, where "no signal" is distinct from signal 0.
#[derive(Copy, Clone, PartialEq, Eq, Structural, Debug)]
pub struct GdbContAction {
    pub type_: GdbActionType,
    pub target: GdbThreadId,
    pub maybe_signal_to_deliver: Option<i32>,
}

impl GdbContAction {
    pub fn new(
        maybe_type: Option<GdbActionType>,
        maybe_target: Option<GdbThreadId>,
        maybe_signal_to_deliver: Option<i32>,
    ) -> (r: GdbContAction)
        ensures
            r.type_ == match maybe_type {
                Some(t) => t,
                None => GdbActionType::ActionContinue,
            },
            r.target == match maybe_target {
                Some(t) => t,
                None => GdbThreadId::any_spec(),
            },
            r.maybe_signal_to_deliver == maybe_signal_to_deliver,
    {
        GdbContAction {
            type_: match maybe_type {
                Some(t) => t,
                None => GdbActionType::ActionContinue,
            },
            target: match maybe_target {
                Some(t) => t,
                None => GdbThreadId::any(),
            },
            maybe_signal_to_deliver,
        }
    }
}

/// The payload of a request, one variant per payload shape.
#[derive(Clone, Debug)]
pub enum GdbRequestValue {
    GdbRequestNone,
    GdbRequestMem(Mem),
    GdbRequestWatch(Watch),
    GdbRequestRestart(Restart),
    GdbRequestRegisterValue(GdbRegisterValue),
    GdbRequestText(Vec<u8>),
    GdbRequestCont(Cont),
    GdbRequestTls(Tls),
    GdbRequestSymbol(Symbol),
    GdbRequestFileSetfs(FileSetfs),
    GdbRequestFileOpen(FileOpen),
    GdbRequestFilePread(FilePread),
    GdbRequestFileClose(FileClose),
}

impl Default for GdbRequestValue {
    fn default() -> (r: Self)
        ensures
            r is GdbRequestNone,
    {
        GdbRequestValue::GdbRequestNone
    }
}

/// One request from the debugger: a tag, the matching payload, the
/// thread it concerns, and whether a stop report should be suppressed.
#[derive(Clone, Debug)]
pub struct GdbRequest {
    pub type_: GdbRequestType,
    pub value: GdbRequestValue,
    pub target: GdbThreadId,
    pub suppress_debugger_stop: bool,
}

/// The payload variant every tag must carry.
pub open spec fn req_wf(r: GdbRequest) -> bool {
    if r.type_ == DREQ_CONT {
        r.value is GdbRequestCont
    } else if is_mem_kind(r.type_) {
        r.value is GdbRequestMem
    } else if is_reg_kind(r.type_) {
        r.value matches GdbRequestValue::GdbRequestRegisterValue(v) && reg_wf(v)
    } else if is_watch_kind(r.type_) {
        r.value is GdbRequestWatch
    } else if r.type_ == DREQ_RESTART {
        r.value is GdbRequestRestart
    } else if r.type_ == DREQ_RD_CMD {
        r.value is GdbRequestText
    } else if r.type_ == DREQ_TLS {
        r.value is GdbRequestTls
    } else if r.type_ == DREQ_QSYMBOL {
        r.value is GdbRequestSymbol
    } else if r.type_ == DREQ_FILE_SETFS {
        r.value is GdbRequestFileSetfs
    } else if r.type_ == DREQ_FILE_OPEN {
        r.value is GdbRequestFileOpen
    } else if r.type_ == DREQ_FILE_PREAD {
        r.value is GdbRequestFilePread
    } else if r.type_ == DREQ_FILE_CLOSE {
        r.value is GdbRequestFileClose
    } else {
        r.value is GdbRequestNone
    }
}

impl Default for GdbRequest {
    fn default() -> (r: Self)
        ensures
            r.type_ == DREQ_NONE,
            r.value is GdbRequestNone,
            r.target == GdbThreadId::any_spec(),
            !r.suppress_debugger_stop,
            req_wf(r),
    {
        GdbRequest {
            type_: DREQ_NONE,
            value: GdbRequestValue::GdbRequestNone,
            target: GdbThreadId::any(),
            suppress_debugger_stop: false,
        }
    }
}

impl GdbRequest {
    /// A fresh request of the given kind with an empty payload; `None`
    /// means no request at all.
    pub fn new(maybe_type: Option<GdbRequestType>) -> (r: GdbRequest)
        requires
            maybe_type matches Some(t) ==> is_valid_kind(t),
        ensures
            r.type_ == match maybe_type {
                Some(t) => t,
                None => DREQ_NONE,
            },
            r.target == GdbThreadId::any_spec(),
            !r.suppress_debugger_stop,
            req_wf(r),
            is_mem_kind(r.type_) ==> (r.value matches GdbRequestValue::GdbRequestMem(m) && m.addr
                == 0 && m.len == 0 && m.data@.len() == 0),
            r.type_ == DREQ_CONT ==> (r.value matches GdbRequestValue::GdbRequestCont(c)
                && c.run_direction == RunDirection::RunForward && c.actions@.len() == 0),
            r.type_ == DREQ_RESTART ==> (r.value matches GdbRequestValue::GdbRequestRestart(p)
                && p.param == 0 && p.param_str@.len() == 0 && p.type_
                == GdbRestartType::RestartFromPrevious),
    {
        let type_: GdbRequestType = match maybe_type {
            Some(t) => t,
            None => DREQ_NONE,
        };
        let value: GdbRequestValue = if type_ == DREQ_CONT {
            GdbRequestValue::GdbRequestCont(Cont::default())
        } else if DREQ_MEM_FIRST <= type_ && type_ <= DREQ_MEM_LAST {
            GdbRequestValue::GdbRequestMem(Mem::default())
        } else if DREQ_REG_FIRST <= type_ && type_ <= DREQ_REG_LAST {
            GdbRequestValue::GdbRequestRegisterValue(GdbRegisterValue::default())
        } else if DREQ_WATCH_FIRST <= type_ && type_ <= DREQ_WATCH_LAST {
            GdbRequestValue::GdbRequestWatch(Watch::default())
        } else if type_ == DREQ_RESTART {
            GdbRequestValue::GdbRequestRestart(Restart::default())
        } else if type_ == DREQ_RD_CMD {
            GdbRequestValue::GdbRequestText(Vec::new())
        } else if type_ == DREQ_TLS {
            GdbRequestValue::GdbRequestTls(Tls::default())
        } else if type_ == DREQ_QSYMBOL {
            GdbRequestValue::GdbRequestSymbol(Symbol::default())
        } else if type_ == DREQ_FILE_SETFS {
            GdbRequestValue::GdbRequestFileSetfs(FileSetfs::default())
        } else if type_ == DREQ_FILE_OPEN {
            GdbRequestValue::GdbRequestFileOpen(FileOpen::default())
        } else if type_ == DREQ_FILE_PREAD {
            GdbRequestValue::GdbRequestFilePread(FilePread::default())
        } else if type_ == DREQ_FILE_CLOSE {
            GdbRequestValue::GdbRequestFileClose(FileClose::default())
        } else {
            GdbRequestValue::GdbRequestNone
        };
        GdbRequest { type_, value, target: GdbThreadId::any(), suppress_debugger_stop: false }
    }

    /// True when this request asks that execution be resumed.
    pub fn is_resume_request(&self) -> (r: bool)
        ensures
            r == (self.type_ == DREQ_CONT),
    {
        self.type_ == DREQ_CONT
    }

    pub fn mem(&self) -> (r: &Mem)
        requires
            self.value is GdbRequestMem,
        ensures
            self.value == GdbRequestValue::GdbRequestMem(*r),
    {
        match &self.value {
            GdbRequestValue::GdbRequestMem(v) => v,
            _ => unreached(),
        }
    }

    pub fn watch(&self) -> (r: &Watch)
        requires
            self.value is GdbRequestWatch,
        ensures
            self.value == GdbRequestValue::GdbRequestWatch(*r),
    {
        match &self.value {
            GdbRequestValue::GdbRequestWatch(v) => v,
            _ => unreached(),
        }
    }

    pub fn restart(&self) -> (r: &Restart)
        requires
            self.value is GdbRequestRestart,
        ensures
            self.value == GdbRequestValue::GdbRequestRestart(*r),
    {
        match &self.value {
            GdbRequestValue::GdbRequestRestart(v) => v,
            _ => unreached(),
        }
    }

    pub fn reg(&self) -> (r: &GdbRegisterValue)
        requires
            self.value is GdbRequestRegisterValue,
        ensures
            self.value == GdbRequestValue::GdbRequestRegisterValue(*r),
    {
        match &self.value {
            GdbRequestValue::GdbRequestRegisterValue(v) => v,
            _ => unreached(),
        }
    }

    pub fn cont(&self) -> (r: &Cont)
        requires
            self.value is GdbRequestCont,
        ensures
            self.value == GdbRequestValue::GdbRequestCont(*r),
    {
        match &self.value {
            GdbRequestValue::GdbRequestCont(v) => v,
            _ => unreached(),
        }
    }

    pub fn text(&self) -> (r: &Vec<u8>)
        requires
            self.value is GdbRequestText,
        ensures
            self.value == GdbRequestValue::GdbRequestText(*r),
    {
        match &self.value {
            GdbRequestValue::GdbRequestText(v) => v,
            _ => unreached(),
        }
    }

    pub fn tls(&self) -> (r: &Tls)
        requires
            self.value is GdbRequestTls,
        ensures
            self.value == GdbRequestValue::GdbRequestTls(*r),
    {
        match &self.value {
            GdbRequestValue::GdbRequestTls(v) => v,
            _ => unreached(),
        }
    }

    pub fn sym(&self) -> (r: &Symbol)
        requires
            self.value is GdbRequestSymbol,
        ensures
            self.value == GdbRequestValue::GdbRequestSymbol(*r),
    {
        match &self.value {
            GdbRequestValue::GdbRequestSymbol(v) => v,
            _ => unreached(),
        }
    }

    pub fn file_setfs(&self) -> (r: &FileSetfs)
        requires
            self.value is GdbRequestFileSetfs,
        ensures
            self.value == GdbRequestValue::GdbRequestFileSetfs(*r),
    {
        match &self.value {
            GdbRequestValue::GdbRequestFileSetfs(v) => v,
            _ => unreached(),
        }
    }

    pub fn file_open(&self) -> (r: &FileOpen)
        requires
            self.value is GdbRequestFileOpen,
        ensures
            self.value == GdbRequestValue::GdbRequestFileOpen(*r),
    {
        match &self.value {
            GdbRequestValue::GdbRequestFileOpen(v) => v,
            _ => unreached(),
        }
    }

    pub fn file_pread(&self) -> (r: &FilePread)
        requires
            self.value is GdbRequestFilePread,
        ensures
            self.value == GdbRequestValue::GdbRequestFilePread(*r),
    {
        match &self.value {
            GdbRequestValue::GdbRequestFilePread(v) => v,
            _ => unreached(),
        }
    }

    pub fn file_close(&self) -> (r: &FileClose)
        requires
            self.value is GdbRequestFileClose,
        ensures
            self.value == GdbRequestValue::GdbRequestFileClose(*r),
    {
        match &self.value {
            GdbRequestValue::GdbRequestFileClose(v) => v,
            _ => unreached(),
        }
    }
}

/// Whether a request must be answered before the next packet is read:
/// everything but "no request" and a resume.
pub open spec fn needs_immediate_response(t: GdbRequestType) -> bool {
    t != DREQ_NONE && t != DREQ_CONT
}

pub fn request_needs_immediate_response(req: &GdbRequest) -> (r: bool)
    ensures
        r == needs_immediate_response(req.type_),
{
    req.type_ != DREQ_NONE && req.type_ != DREQ_CONT
}

} // verus!
