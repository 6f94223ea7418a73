//! Kernel ABI types shared with userspace: error numbers, time and I/O
//! vector layouts, and limits.
use vstd::prelude::*;

verus! {

/// An error number as returned to userspace.
pub type Errno = i32;

/// No such file or directory
pub const ENOENT: Errno = 2;

/// Bad file descriptor
pub const EBADF: Errno = 9;

/// Bad address
pub const EFAULT: Errno = 14;

/// Invalid argument
pub const EINVAL: Errno = 22;

/// Too many open files
pub const EMFILE: Errno = 24;

/// Illegal seek
pub const ESPIPE: Errno = 29;

/// Result out of range
pub const ERANGE: Errno = 34;

/// File name too long
pub const ENAMETOOLONG: Errno = 36;

/// Longest path, in bytes, that a system call accepts.
pub const PATH_MAX: usize = 4096;

/// Most I/O vectors in one vectored call.
pub const UIO_MAXIOV: usize = 1024;

/// A point in time or a duration: seconds and nanoseconds.
#[allow(non_camel_case_types)]
#[derive(Debug, Clone, Copy, Default)]
pub struct timespec {
    pub tv_sec: i64,
    pub tv_nsec: i64,
}

/// One buffer of a vectored I/O call: its address and length.
#[allow(non_camel_case_types)]
#[derive(Debug, Clone, Copy)]
pub struct iovec {
    pub iov_base: usize,
    pub iov_len: usize,
}

} // verus!
