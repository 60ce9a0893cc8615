//! Linux x86 signal numbers mapped onto the numbering the debugger's
//! wire protocol uses.  The two agree for many signals but not all,
//! realtime signals are shifted, and anything outside the known range
//! is reported as the protocol's "unknown signal".

use vstd::prelude::*;

verus! {

/// The protocol signal number for Linux x86 signal `sig`.  Zero stands
/// for "no signal"; numbers outside 0..=127 are unknown and become 143.
pub open spec fn gdb_signum_of(sig: int) -> int {
    if sig == 0 {
        0
    } else if sig == 1 {  // SIGHUP
        1
    } else if sig == 2 {  // SIGINT
        2
    } else if sig == 3 {  // SIGQUIT
        3
    } else if sig == 4 {  // SIGILL
        4
    } else if sig == 5 {  // SIGTRAP
        5
    } else if sig == 6 {  // SIGABRT
        6
    } else if sig == 7 {  // SIGBUS
        10
    } else if sig == 8 {  // SIGFPE
        8
    } else if sig == 9 {  // SIGKILL
        9
    } else if sig == 10 {  // SIGUSR1
        30
    } else if sig == 11 {  // SIGSEGV
        11
    } else if sig == 12 {  // SIGUSR2
        31
    } else if sig == 13 {  // SIGPIPE
        13
    } else if sig == 14 {  // SIGALRM
        14
    } else if sig == 15 {  // SIGTERM
        15
    } else if sig == 16 {  // SIGSTKFLT; the protocol has no slot for it
        38
    } else if sig == 17 {  // SIGCHLD
        20
    } else if sig == 18 {  // SIGCONT
        19
    } else if sig == 19 {  // SIGSTOP
        17
    } else if sig == 20 {  // SIGTSTP
        18
    } else if sig == 21 {  // SIGTTIN
        21
    } else if sig == 22 {  // SIGTTOU
        22
    } else if sig == 23 {  // SIGURG
        16
    } else if sig == 24 {  // SIGXCPU
        24
    } else if sig == 25 {  // SIGXFSZ
        25
    } else if sig == 26 {  // SIGVTALRM
        26
    } else if sig == 27 {  // SIGPROF
        27
    } else if sig == 28 {  // SIGWINCH
        28
    } else if sig == 29 {  // SIGIO
        23
    } else if sig == 30 {  // SIGPWR
        32
    } else if sig == 31 {  // SIGSYS
        12
    } else if sig == 32 {  // reserved for the threading runtime
        77
    } else if 33 <= sig && sig <= 63 {  // realtime, low block
        sig + 12
    } else if 64 <= sig && sig <= 127 {  // realtime, high block
        sig + 14
    } else {
        143
    }
}

/// The protocol number for a stop: 0 when no signal stopped the target.
pub open spec fn gdb_signum_opt(maybe_sig: Option<i32>) -> int {
    match maybe_sig {
        None => 0,
        Some(sig) => gdb_signum_of(sig as int),
    }
}

/// Translate a Linux signal number (or no signal at all) for the wire.
pub fn to_gdb_signum(maybe_sig: Option<i32>) -> (r: i32)
    ensures
        r == gdb_signum_opt(maybe_sig),
        0 <= r <= 143,
{
    let sig: i32 = match maybe_sig {
        None => {
            return 0;
        },
        Some(s) => s,
    };
    if sig == 0 {
        0
    } else if sig == 1 {
        1
    } else if sig == 2 {
        2
    } else if sig == 3 {
        3
    } else if sig == 4 {
        4
    } else if sig == 5 {
        5
    } else if sig == 6 {
        6
    } else if sig == 7 {
        10
    } else if sig == 8 {
        8
    } else if sig == 9 {
        9
    } else if sig == 10 {
        30
    } else if sig == 11 {
        11
    } else if sig == 12 {
        31
    } else if sig == 13 {
        13
    } else if sig == 14 {
        14
    } else if sig == 15 {
        15
    } else if sig == 16 {
        38
    } else if sig == 17 {
        20
    } else if sig == 18 {
        19
    } else if sig == 19 {
        17
    } else if sig == 20 {
        18
    } else if sig == 21 {
        21
    } else if sig == 22 {
        22
    } else if sig == 23 {
        16
    } else if sig == 24 {
        24
    } else if sig == 25 {
        25
    } else if sig == 26 {
        26
    } else if sig == 27 {
        27
    } else if sig == 28 {
        28
    } else if sig == 29 {
        23
    } else if sig == 30 {
        32
    } else if sig == 31 {
        12
    } else if sig == 32 {
        77
    } else if 33 <= sig && sig <= 63 {
        sig + 12
    } else if 64 <= sig && sig <= 127 {
        sig + 14
    } else {
        143
    }
}

/// On its documented domain the translation loses nothing: distinct
/// Linux signals have distinct protocol numbers.
pub proof fn lemma_gdb_signum_injective(s1: int, s2: int)
    requires
        0 <= s1 <= 127,
        0 <= s2 <= 127,
        s1 != s2,
    ensures
        gdb_signum_of(s1) != gdb_signum_of(s2),
{
}

/// Outside the documented domain every signal is reported as unknown.
pub proof fn lemma_gdb_signum_unknown(sig: int)
    requires
        sig < 0 || sig > 127,
    ensures
        gdb_signum_of(sig) == 143,
{
}

} // verus!
