//! The file subprotocol's open flags mapped onto the host's `open(2)`
//! flag word, and host errno values mapped onto the protocol's errno
//! numbering.

use vstd::prelude::*;

verus! {

/// Host `open(2)` access modes and flag bits, as Linux x86 defines them.
pub const HOST_O_RDONLY: i32 = 0;

pub const HOST_O_WRONLY: i32 = 1;

pub const HOST_O_RDWR: i32 = 2;

pub const HOST_O_CREAT: i32 = 0x40;

pub const HOST_O_EXCL: i32 = 0x80;

pub const HOST_O_TRUNC: i32 = 0x200;

pub const HOST_O_APPEND: i32 = 0x400;

/// The inbound flag word is valid when the two access bits do not read
/// "3" and no bit outside the defined field is set: low two bits pick
/// the access mode, 0x8 appends, 0x200 creates, 0x400 truncates, 0x800
/// is exclusive.
pub open spec fn valid_gdb_open_flags(flags: i64) -> bool {
    flags & 3 != 3 && flags & !(3i64 | 0x8 | 0x200 | 0x400 | 0x800) == 0
}

/// The host flag word for a valid inbound flag word.
pub open spec fn host_open_flags_of(flags: i64) -> i32 {
    (if flags & 3 == 0 {
        HOST_O_RDONLY
    } else if flags & 3 == 1 {
        HOST_O_WRONLY
    } else {
        HOST_O_RDWR
    }) | (if flags & 0x8 != 0 {
        HOST_O_APPEND
    } else {
        0
    }) | (if flags & 0x200 != 0 {
        HOST_O_CREAT
    } else {
        0
    }) | (if flags & 0x400 != 0 {
        HOST_O_TRUNC
    } else {
        0
    }) | (if flags & 0x800 != 0 {
        HOST_O_EXCL
    } else {
        0
    })
}

/// Translate protocol open flags to the host's word.  Callers reject
/// invalid flag words as a protocol violation before coming here.
pub fn gdb_open_flags_to_system_flags(flags: i64) -> (r: i32)
    requires
        valid_gdb_open_flags(flags),
    ensures
        r == host_open_flags_of(flags),
{
    let mut ret: i32;
    if flags & 3 == 0 {
        ret = HOST_O_RDONLY;
    } else if flags & 3 == 1 {
        ret = HOST_O_WRONLY;
    } else {
        ret = HOST_O_RDWR;
    }
    if flags & 0x8 != 0 {
        ret = ret | HOST_O_APPEND;
    }
    if flags & 0x200 != 0 {
        ret = ret | HOST_O_CREAT;
    }
    if flags & 0x400 != 0 {
        ret = ret | HOST_O_TRUNC;
    }
    if flags & 0x800 != 0 {
        ret = ret | HOST_O_EXCL;
    }
    assert(ret == host_open_flags_of(flags)) by {
        assert(forall|a: i32, b: i32, c: i32, d: i32, e: i32|
            ((((a | b) | c) | d) | e) == (a | (b | (c | (d | e))))) by (bit_vector);
        assert(forall|a: i32| (a | 0) == a && (0 | a) == a) by (bit_vector);
    };
    ret
}

/// Check an inbound flag word.
pub fn check_gdb_open_flags(flags: i64) -> (r: bool)
    ensures
        r == valid_gdb_open_flags(flags),
{
    flags & 3 != 3 && flags & !(3i64 | 0x8 | 0x200 | 0x400 | 0x800) == 0
}

/// The protocol errno for a host (Linux x86) errno value.  On Linux the
/// two numberings agree on every translated value except
/// ENAMETOOLONG, which is 36 on the host and 91 on the wire; anything
/// untranslated becomes 9999.
pub open spec fn gdb_errno_of(host_errno: int) -> int {
    if host_errno == 1 {  // EPERM
        1
    } else if host_errno == 2 {  // ENOENT
        2
    } else if host_errno == 4 {  // EINTR
        4
    } else if host_errno == 9 {  // EBADF
        9
    } else if host_errno == 13 {  // EACCES
        13
    } else if host_errno == 14 {  // EFAULT
        14
    } else if host_errno == 16 {  // EBUSY
        16
    } else if host_errno == 17 {  // EEXIST
        17
    } else if host_errno == 19 {  // ENODEV
        19
    } else if host_errno == 20 {  // ENOTDIR
        20
    } else if host_errno == 21 {  // EISDIR
        21
    } else if host_errno == 22 {  // EINVAL
        22
    } else if host_errno == 23 {  // ENFILE
        23
    } else if host_errno == 24 {  // EMFILE
        24
    } else if host_errno == 27 {  // EFBIG
        27
    } else if host_errno == 28 {  // ENOSPC
        28
    } else if host_errno == 29 {  // ESPIPE
        29
    } else if host_errno == 30 {  // EROFS
        30
    } else if host_errno == 36 {  // ENAMETOOLONG
        91
    } else {
        9999
    }
}

/// Translate a host errno for a file-operation error reply.
pub fn to_gdb_errno(host_errno: i32) -> (r: i32)
    ensures
        r == gdb_errno_of(host_errno as int),
        0 <= r <= 9999,
{
    if host_errno == 1 {
        1
    } else if host_errno == 2 {
        2
    } else if host_errno == 4 {
        4
    } else if host_errno == 9 {
        9
    } else if host_errno == 13 {
        13
    } else if host_errno == 14 {
        14
    } else if host_errno == 16 {
        16
    } else if host_errno == 17 {
        17
    } else if host_errno == 19 {
        19
    } else if host_errno == 20 {
        20
    } else if host_errno == 21 {
        21
    } else if host_errno == 22 {
        22
    } else if host_errno == 23 {
        23
    } else if host_errno == 24 {
        24
    } else if host_errno == 27 {
        27
    } else if host_errno == 28 {
        28
    } else if host_errno == 29 {
        29
    } else if host_errno == 30 {
        30
    } else if host_errno == 36 {
        91
    } else {
        9999
    }
}

} // verus!
